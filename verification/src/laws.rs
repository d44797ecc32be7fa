//! General laws of the parser, stated over the spec-level machine and proved
//! once for all schemas and inputs.

use vstd::prelude::*;
use vstd::seq_lib::*;
use crate::help::spec_help;
use crate::model::{
    init_model, lemma_flag_lookup_props, spec_finalize, spec_flag_lookup, spec_flag_matches,
    spec_missing_options, spec_missing_options_from, spec_missing_positionals,
    spec_missing_positionals_from, spec_missing_sub, spec_parse, spec_scan, spec_sub_entries,
    spec_sub_lookup, spec_sub_matches, spec_sub_names_of, ExitModel, ParseModel,
};
use crate::parser::{lemma_first_match_is_lookup_flag, lemma_first_match_is_lookup_sub};
use crate::requirements::spec_missing_message;
use crate::schema::{HelpFlagInfo, HelpInfo, HelpSubCommandInfo};
use crate::strtools::views_of;

verus! {

/// No name of flag `a` selects flag `b`.
pub open spec fn spec_no_cross_match(a: HelpFlagInfo, b: HelpFlagInfo) -> bool {
    &&& !spec_flag_matches(b, a.long@)
    &&& (a.short is Some ==> !spec_flag_matches(b, seq!['-', a.short->0]))
    &&& (forall|k: int|
        0 <= k < a.synonyms@.len() ==> !spec_flag_matches(b, a.synonyms@[k]@))
}

/// No name of subcommand `a` selects subcommand `b`.
pub open spec fn spec_no_sub_cross_match(a: HelpSubCommandInfo, b: HelpSubCommandInfo) -> bool {
    &&& !spec_sub_matches(b, a.name@)
    &&& (a.short is Some ==> !spec_sub_matches(b, a.short->0@))
    &&& (forall|k: int| 0 <= k < a.synonyms@.len() ==> !spec_sub_matches(b, a.synonyms@[k]@))
}

/// Registry lookup is idempotent across a flag's names: the long name, the
/// short alias and every synonym of one flag select the same slot index,
/// provided no other flag shares any of those names.
pub proof fn lemma_lookup_idempotent(fs: Seq<HelpFlagInfo>, i: int)
    requires
        0 <= i < fs.len(),
        forall|j: int| 0 <= j < fs.len() && j != i ==> spec_no_cross_match(fs[i], #[trigger] fs[j]),
    ensures
        spec_flag_lookup(fs, fs[i].long@) == Some(i),
        fs[i].short is Some ==> spec_flag_lookup(fs, seq!['-', fs[i].short->0]) == Some(i),
        forall|k: int|
            0 <= k < fs[i].synonyms@.len() ==> spec_flag_lookup(fs, #[trigger] fs[i].synonyms@[k]@)
                == Some(i),
{
    assert(spec_flag_matches(fs[i], fs[i].long@));
    lemma_first_match_is_lookup_flag(fs, fs[i].long@, i);
    if fs[i].short is Some {
        assert(spec_flag_matches(fs[i], seq!['-', fs[i].short->0]));
        lemma_first_match_is_lookup_flag(fs, seq!['-', fs[i].short->0], i);
    }
    assert forall|k: int| 0 <= k < fs[i].synonyms@.len() implies spec_flag_lookup(
        fs,
        #[trigger] fs[i].synonyms@[k]@,
    ) == Some(i) by {
        assert(views_of(fs[i].synonyms@).contains(fs[i].synonyms@[k]@)) by {
            assert(views_of(fs[i].synonyms@)[k] == fs[i].synonyms@[k]@);
        }
        assert(spec_flag_matches(fs[i], fs[i].synonyms@[k]@));
        lemma_first_match_is_lookup_flag(fs, fs[i].synonyms@[k]@, i);
    }
}

/// With no required argument anywhere in the schema, parsing zero tokens
/// succeeds and yields the empty accumulation: every slot is left for its
/// default.
pub proof fn lemma_empty_args_yield_defaults(schema: HelpInfo, cmd: Seq<Seq<char>>)
    requires
        forall|k: int|
            0 <= k < schema.positionals@.len() ==> !(#[trigger] schema.positionals@[k].optionality
                is Required),
        forall|k: int|
            0 <= k < schema.flags@.len() ==> !(#[trigger] schema.flags@[k].optionality is Required),
        schema.subcommand is Some ==> schema.subcommand->0.optional,
    ensures
        spec_parse(schema, cmd, Seq::empty()) == Ok::<ParseModel, ExitModel>(init_model(schema)),
{
    let m = init_model(schema);
    lemma_no_missing_positionals(schema, m, 0);
    lemma_no_missing_options(schema, m, 0);
}

/// With nothing required and unfilled from index `i` on, no positional is
/// reported missing from index `i` on.
proof fn lemma_no_missing_positionals(schema: HelpInfo, m: ParseModel, i: int)
    requires
        forall|k: int|
            i <= k < schema.positionals@.len() ==> !(#[trigger] schema.positionals@[k].optionality
                is Required && m.positionals[k].len() == 0),
    ensures
        spec_missing_positionals_from(schema, m, i) == Seq::<Seq<char>>::empty(),
    decreases schema.positionals@.len() - i,
{
    if 0 <= i < schema.positionals@.len() {
        lemma_no_missing_positionals(schema, m, i + 1);
        assert(spec_missing_positionals_from(schema, m, i) =~= Seq::<Seq<char>>::empty());
    }
}

/// With nothing required and unfilled from index `i` on, no option is
/// reported missing from index `i` on.
proof fn lemma_no_missing_options(schema: HelpInfo, m: ParseModel, i: int)
    requires
        forall|k: int|
            i <= k < schema.flags@.len() ==> !(#[trigger] schema.flags@[k].optionality is Required
                && m.flags[k].values.len() == 0),
    ensures
        spec_missing_options_from(schema, m, i) == Seq::<Seq<char>>::empty(),
    decreases schema.flags@.len() - i,
{
    if 0 <= i < schema.flags@.len() {
        lemma_no_missing_options(schema, m, i + 1);
        assert(spec_missing_options_from(schema, m, i) =~= Seq::<Seq<char>>::empty());
    }
}

/// Filtering splits off the head element.
proof fn lemma_filter_cons<A>(s: Seq<A>, pred: spec_fn(A) -> bool)
    requires
        s.len() > 0,
    ensures
        s.filter(pred) == (if pred(s.first()) {
            seq![s.first()]
        } else {
            Seq::<A>::empty()
        }) + s.drop_first().filter(pred),
    decreases s.len(),
{
    reveal(Seq::filter);
    if s.len() == 1 {
        assert(s.drop_last() =~= Seq::<A>::empty());
        assert(s.drop_first() =~= Seq::<A>::empty());
        assert(s.last() == s.first());
        if pred(s.first()) {
            assert(s.filter(pred) =~= seq![s.first()] + s.drop_first().filter(pred));
        } else {
            assert(s.filter(pred) =~= Seq::<A>::empty() + s.drop_first().filter(pred));
        }
    } else {
        lemma_filter_cons(s.drop_last(), pred);
        assert(s.drop_last().first() == s.first());
        assert(s.drop_last().drop_first() =~= s.drop_first().drop_last());
        assert(s.drop_first().last() == s.last());
        if pred(s.first()) {
            assert(s.filter(pred) =~= (seq![s.first()] + s.drop_first().drop_last().filter(pred))
                + (if pred(s.last()) {
                seq![s.last()]
            } else {
                Seq::<A>::empty()
            }));
            assert(s.drop_first().filter(pred) == s.drop_first().drop_last().filter(pred) + (
            if pred(s.drop_first().last()) {
                seq![s.drop_first().last()]
            } else {
                Seq::<A>::empty()
            }));
            assert(s.filter(pred) =~= seq![s.first()] + s.drop_first().filter(pred));
        } else {
            assert(s.filter(pred) =~= s.drop_first().drop_last().filter(pred) + (if pred(
                s.last(),
            ) {
                seq![s.last()]
            } else {
                Seq::<A>::empty()
            }));
            assert(s.drop_first().filter(pred) == s.drop_first().drop_last().filter(pred) + (
            if pred(s.drop_first().last()) {
                seq![s.drop_first().last()]
            } else {
                Seq::<A>::empty()
            }));
            assert(s.filter(pred) =~= Seq::<A>::empty() + s.drop_first().filter(pred));
        }
    }
}

/// The missing-positional names are exactly the names of the required
/// positionals whose slots stayed empty, in declaration order.
pub proof fn lemma_missing_positionals_exact(schema: HelpInfo, m: ParseModel)
    ensures
        spec_missing_positionals(schema, m) == Seq::new(
            schema.positionals@.len(),
            |k: int| k,
        ).filter(
            |k: int| schema.positionals@[k].optionality is Required && m.positionals[k].len() == 0,
        ).map_values(|k: int| schema.positionals@[k].name@),
{
    lemma_missing_positionals_exact_from(schema, m, 0);
    assert(Seq::new(schema.positionals@.len(), |k: int| 0 + k) =~= Seq::new(
        schema.positionals@.len(),
        |k: int| k,
    ));
}

/// The suffix form of [`lemma_missing_positionals_exact`].
proof fn lemma_missing_positionals_exact_from(schema: HelpInfo, m: ParseModel, i: int)
    requires
        0 <= i <= schema.positionals@.len(),
    ensures
        spec_missing_positionals_from(schema, m, i) == Seq::new(
            (schema.positionals@.len() - i) as nat,
            |k: int| i + k,
        ).filter(
            |k: int| schema.positionals@[k].optionality is Required && m.positionals[k].len() == 0,
        ).map_values(|k: int| schema.positionals@[k].name@),
    decreases schema.positionals@.len() - i,
{
    let pred = |k: int| schema.positionals@[k].optionality is Required && m.positionals[k].len()
        == 0;
    let namer = |k: int| schema.positionals@[k].name@;
    let idxs = Seq::new((schema.positionals@.len() - i) as nat, |k: int| i + k);
    if i == schema.positionals@.len() {
        reveal(Seq::filter);
        assert(idxs =~= Seq::<int>::empty());
        assert(idxs.filter(pred) =~= Seq::<int>::empty());
        assert(idxs.filter(pred).map_values(namer) =~= Seq::<Seq<char>>::empty());
    } else {
        lemma_missing_positionals_exact_from(schema, m, i + 1);
        let tail = Seq::new((schema.positionals@.len() - i - 1) as nat, |k: int| i + 1 + k);
        lemma_filter_cons(idxs, pred);
        assert(idxs.first() == i);
        assert(idxs.drop_first() =~= tail);
        if pred(i) {
            assert(idxs.filter(pred) == seq![i] + tail.filter(pred));
            assert((seq![i] + tail.filter(pred)).map_values(namer) =~= seq![namer(i)]
                + tail.filter(pred).map_values(namer));
            assert(spec_missing_positionals_from(schema, m, i) =~= seq![namer(i)] + tail.filter(
                pred,
            ).map_values(namer));
        } else {
            assert(idxs.filter(pred) == Seq::<int>::empty() + tail.filter(pred));
            assert(Seq::<int>::empty() + tail.filter(pred) =~= tail.filter(pred));
            assert(spec_missing_positionals_from(schema, m, i) =~= tail.filter(pred).map_values(
                namer,
            ));
        }
    }
}

/// The missing-option names are exactly the long names of the required
/// options whose slots stayed empty, in declaration order.
pub proof fn lemma_missing_options_exact(schema: HelpInfo, m: ParseModel)
    ensures
        spec_missing_options(schema, m) == Seq::new(schema.flags@.len(), |k: int| k).filter(
            |k: int| schema.flags@[k].optionality is Required && m.flags[k].values.len() == 0,
        ).map_values(|k: int| schema.flags@[k].long@),
{
    lemma_missing_options_exact_from(schema, m, 0);
    assert(Seq::new(schema.flags@.len(), |k: int| 0 + k) =~= Seq::new(
        schema.flags@.len(),
        |k: int| k,
    ));
}

/// The suffix form of [`lemma_missing_options_exact`].
proof fn lemma_missing_options_exact_from(schema: HelpInfo, m: ParseModel, i: int)
    requires
        0 <= i <= schema.flags@.len(),
    ensures
        spec_missing_options_from(schema, m, i) == Seq::new(
            (schema.flags@.len() - i) as nat,
            |k: int| i + k,
        ).filter(|k: int| schema.flags@[k].optionality is Required && m.flags[k].values.len() == 0)
            .map_values(|k: int| schema.flags@[k].long@),
    decreases schema.flags@.len() - i,
{
    let pred = |k: int| schema.flags@[k].optionality is Required && m.flags[k].values.len() == 0;
    let namer = |k: int| schema.flags@[k].long@;
    let idxs = Seq::new((schema.flags@.len() - i) as nat, |k: int| i + k);
    if i == schema.flags@.len() {
        reveal(Seq::filter);
        assert(idxs =~= Seq::<int>::empty());
        assert(idxs.filter(pred) =~= Seq::<int>::empty());
        assert(idxs.filter(pred).map_values(namer) =~= Seq::<Seq<char>>::empty());
    } else {
        lemma_missing_options_exact_from(schema, m, i + 1);
        let tail = Seq::new((schema.flags@.len() - i - 1) as nat, |k: int| i + 1 + k);
        lemma_filter_cons(idxs, pred);
        assert(idxs.first() == i);
        assert(idxs.drop_first() =~= tail);
        if pred(i) {
            assert(idxs.filter(pred) == seq![i] + tail.filter(pred));
            assert((seq![i] + tail.filter(pred)).map_values(namer) =~= seq![namer(i)]
                + tail.filter(pred).map_values(namer));
            assert(spec_missing_options_from(schema, m, i) =~= seq![namer(i)] + tail.filter(
                pred,
            ).map_values(namer));
        } else {
            assert(idxs.filter(pred) == Seq::<int>::empty() + tail.filter(pred));
            assert(Seq::<int>::empty() + tail.filter(pred) =~= tail.filter(pred));
            assert(spec_missing_options_from(schema, m, i) =~= tail.filter(pred).map_values(
                namer,
            ));
        }
    }
}

/// Finalizing without help succeeds exactly when nothing required is
/// missing; otherwise it fails with the consolidated report over exactly
/// the missing names, in declaration order, and nothing else.
pub proof fn lemma_missing_requirements_reported(schema: HelpInfo, cmd: Seq<Seq<char>>, m: ParseModel)
    ensures
        spec_finalize(schema, cmd, false, m) is Ok <==> (spec_missing_positionals(schema, m).len()
            == 0 && spec_missing_options(schema, m).len() == 0 && !spec_missing_sub(schema, m)),
        spec_finalize(schema, cmd, false, m) is Ok ==> spec_finalize(schema, cmd, false, m)->Ok_0
            == m,
        spec_finalize(schema, cmd, false, m) is Err ==> spec_finalize(schema, cmd, false, m)->Err_0
            == (ExitModel {
            output: spec_missing_message(
                spec_missing_positionals(schema, m),
                spec_missing_options(schema, m),
                if spec_missing_sub(schema, m) {
                    Some(spec_sub_names_of(schema))
                } else {
                    None
                },
            ),
            ok: false,
        }),
{
    lemma_missing_positionals_exact(schema, m);
    lemma_missing_options_exact(schema, m);
}

/// Help round trip: parsing exactly the `--help` token yields the
/// success-disposition exit whose output is the very text that direct help
/// synthesis renders for the same schema and command path.
pub proof fn lemma_help_round_trip(schema: HelpInfo, cmd: Seq<Seq<char>>)
    requires
        views_of(schema.help_triggers@).contains("--help"@),
    ensures
        spec_parse(schema, cmd, seq!["--help"@]) == Err::<ParseModel, ExitModel>(
            ExitModel { output: spec_help(schema, cmd), ok: true },
        ),
{
    let args = seq!["--help"@];
    assert(args.subrange(1, 1) =~= Seq::<Seq<char>>::empty());
    assert(spec_scan(schema, cmd, args.subrange(1, 1), true, false, 0, init_model(schema))
        == spec_finalize(schema, cmd, true, init_model(schema)));
}

/// A subcommand's short alias and its canonical name are interchangeable:
/// the same tokens after either produce the very same outcome, because
/// dispatch recurses into the same schema at the same canonical path.
pub proof fn lemma_alias_interchangeable(
    schema: HelpInfo,
    cmd: Seq<Seq<char>>,
    t: Seq<char>,
    rest: Seq<Seq<char>>,
    i: int,
)
    requires
        schema.subcommand is Some,
        0 <= i < spec_sub_entries(schema).len(),
        spec_sub_matches(spec_sub_entries(schema)[i], t),
        forall|j: int|
            0 <= j < spec_sub_entries(schema).len() && j != i ==> spec_no_sub_cross_match(
                spec_sub_entries(schema)[i],
                #[trigger] spec_sub_entries(schema)[j],
            ),
        !views_of(schema.help_triggers@).contains(t),
        !views_of(schema.help_triggers@).contains(spec_sub_entries(schema)[i].name@),
        t.len() > 0 && t[0] != '-',
        spec_sub_entries(schema)[i].name@.len() > 0 && spec_sub_entries(schema)[i].name@[0] != '-',
    ensures
        spec_parse(schema, cmd, seq![t] + rest) == spec_parse(
            schema,
            cmd,
            seq![spec_sub_entries(schema)[i].name@] + rest,
        ),
{
    let entries = spec_sub_entries(schema);
    let e = entries[i];
    assert(spec_sub_matches(e, e.name@));
    assert forall|j: int| 0 <= j < i implies !spec_sub_matches(entries[j], t) by {
        assert(spec_no_sub_cross_match(e, entries[j]));
        lemma_token_of_entry(e, entries[j], t);
    }
    assert forall|j: int| 0 <= j < i implies !spec_sub_matches(entries[j], e.name@) by {
        assert(spec_no_sub_cross_match(e, entries[j]));
    }
    lemma_first_match_is_lookup_sub(entries, t, i);
    lemma_first_match_is_lookup_sub(entries, e.name@, i);
    let a1 = seq![t] + rest;
    let a2 = seq![e.name@] + rest;
    assert(a1[0] == t);
    assert(a2[0] == e.name@);
    assert(a1.subrange(1, a1.len() as int) =~= rest);
    assert(a2.subrange(1, a2.len() as int) =~= rest);
}

/// A token the scanner routes to positional handling: not a help trigger and
/// not flag-shaped.
pub open spec fn spec_plain_token(schema: HelpInfo, t: Seq<char>) -> bool {
    &&& !views_of(schema.help_triggers@).contains(t)
    &&& !(t.len() > 0 && t[0] == '-')
}

/// The parse after the tokens of `rem` were distributed over the positional
/// slots from `pi` on: each slot takes one token and the cursor advances,
/// except that the last slot, when repeating or greedy, takes every token
/// from then on.
pub open spec fn spec_distribute(schema: HelpInfo, m: ParseModel, pi: int, rem: Seq<Seq<char>>) -> ParseModel
    decreases rem.len(),
{
    if rem.len() == 0 || !(0 <= pi < schema.positionals@.len()) {
        m
    } else {
        let p = schema.positionals@[pi];
        let stay = pi == schema.positionals@.len() - 1 && (p.optionality is Repeating
            || p.optionality is Greedy);
        spec_distribute(
            schema,
            crate::model::spec_pos_fill(m, pi, rem[0], p.name@),
            if stay {
                pi
            } else {
                pi + 1
            },
            rem.subrange(1, rem.len() as int),
        )
    }
}

/// Every remaining token goes to the positional slots: once the end of
/// options was reached, or as long as each token is plain and selects no
/// subcommand, the scan just distributes the tokens over the slots and
/// finalizes.
pub proof fn lemma_positional_routing(
    schema: HelpInfo,
    cmd: Seq<Seq<char>>,
    rem: Seq<Seq<char>>,
    help: bool,
    oe: bool,
    pi: int,
    m: ParseModel,
)
    requires
        schema.positionals@.len() >= 1,
        0 <= pi < schema.positionals@.len(),
        schema.positionals@.last().optionality is Repeating || schema.positionals@.last().optionality
            is Greedy,
        forall|i: int|
            pi <= i < schema.positionals@.len() ==> (#[trigger] schema.positionals@[i].parser)
                is Text,
        oe || (forall|j: int|
            0 <= j < rem.len() ==> spec_plain_token(schema, #[trigger] rem[j]) && (schema.subcommand
                is Some ==> spec_sub_lookup(spec_sub_entries(schema), rem[j]) is None)),
    ensures
        spec_scan(schema, cmd, rem, help, oe, pi, m) == spec_finalize(
            schema,
            cmd,
            help,
            spec_distribute(schema, m, pi, rem),
        ),
    decreases rem.len(),
{
    if rem.len() > 0 {
        let tok = rem[0];
        let rest = rem.subrange(1, rem.len() as int);
        let p = schema.positionals@[pi];
        let stay = pi == schema.positionals@.len() - 1 && (p.optionality is Repeating
            || p.optionality is Greedy);
        let pi2 = if stay {
            pi
        } else {
            pi + 1
        };
        let oe2 = oe || (stay && p.optionality is Greedy);
        let m2 = crate::model::spec_pos_fill(m, pi, tok, p.name@);
        assert(forall|j: int| 0 <= j < rest.len() ==> rest[j] == rem[j + 1]);
        lemma_positional_routing(schema, cmd, rest, help, oe2, pi2, m2);
    }
}

/// The distribution over the last slot, when it is repeating or greedy,
/// appends every token to that slot in order and records its name once per
/// token; nothing else changes.
pub proof fn lemma_distribute_at_last(schema: HelpInfo, m: ParseModel, rem: Seq<Seq<char>>)
    requires
        schema.positionals@.len() >= 1,
        m.positionals.len() == schema.positionals@.len(),
        schema.positionals@.last().optionality is Repeating || schema.positionals@.last().optionality
            is Greedy,
    ensures
        ({
            let last = schema.positionals@.len() - 1;
            let d = spec_distribute(schema, m, last, rem);
            &&& d.positionals == m.positionals.update(last, m.positionals[last] + rem)
            &&& d.flags == m.flags
            &&& d.subcommand == m.subcommand
            &&& d.redacted == m.redacted + Seq::new(
                rem.len(),
                |j: int| schema.positionals@[last].name@,
            )
        }),
    decreases rem.len(),
{
    let last = schema.positionals@.len() - 1;
    if rem.len() == 0 {
        assert(m.positionals.update(last, m.positionals[last] + rem) =~= m.positionals);
        assert(m.redacted + Seq::new(rem.len(), |j: int| schema.positionals@[last].name@)
            =~= m.redacted);
    } else {
        let tok = rem[0];
        let rest = rem.subrange(1, rem.len() as int);
        let m2 = crate::model::spec_pos_fill(m, last, tok, schema.positionals@[last].name@);
        lemma_distribute_at_last(schema, m2, rest);
        let d = spec_distribute(schema, m, last, rem);
        assert(m2.positionals[last] == m.positionals[last].push(tok));
        assert(m2.positionals.update(last, m2.positionals[last] + rest) =~= m.positionals.update(
            last,
            m.positionals[last] + rem,
        )) by {
            assert(m.positionals[last].push(tok) + rest =~= m.positionals[last] + rem);
        }
        assert(m2.redacted + Seq::new(rest.len(), |j: int| schema.positionals@[last].name@)
            =~= m.redacted + Seq::new(rem.len(), |j: int| schema.positionals@[last].name@));
    }
}

/// A greedy tail absorbs everything verbatim: once the end of options is
/// set and the cursor stands at a repeating or greedy last positional, every
/// remaining token, flag-shaped or not, is appended to that slot in order.
pub proof fn lemma_greedy_absorbs_verbatim(
    schema: HelpInfo,
    cmd: Seq<Seq<char>>,
    rem: Seq<Seq<char>>,
    help: bool,
    m: ParseModel,
)
    requires
        schema.positionals@.len() >= 1,
        m.positionals.len() == schema.positionals@.len(),
        schema.positionals@.last().optionality is Repeating || schema.positionals@.last().optionality
            is Greedy,
        schema.positionals@.last().parser is Text,
    ensures
        ({
            let last = schema.positionals@.len() - 1;
            spec_scan(schema, cmd, rem, help, true, last, m) == spec_finalize(
                schema,
                cmd,
                help,
                spec_distribute(schema, m, last, rem),
            ) && spec_distribute(schema, m, last, rem).positionals == m.positionals.update(
                last,
                m.positionals[last] + rem,
            )
        }),
{
    let last = schema.positionals@.len() - 1;
    assert(forall|i: int|
        last <= i < schema.positionals@.len() ==> (#[trigger] schema.positionals@[i].parser)
            is Text);
    lemma_positional_routing(schema, cmd, rem, help, true, last, m);
    lemma_distribute_at_last(schema, m, rem);
}

/// The explicit separator forces all later tokens to be positional content:
/// against a schema whose one positional repeats, `--` followed by any
/// tokens, flag-shaped or not, parses to exactly those tokens in the
/// positional slot with every flag left untouched.
pub proof fn lemma_separator_forces_positional(schema: HelpInfo, cmd: Seq<Seq<char>>, rest: Seq<Seq<char>>)
    requires
        schema.positionals@.len() == 1,
        schema.positionals@[0].optionality is Repeating,
        schema.positionals@[0].parser is Text,
        !views_of(schema.help_triggers@).contains("--"@),
        forall|k: int|
            0 <= k < schema.flags@.len() ==> !(#[trigger] schema.flags@[k].optionality is Required),
        schema.subcommand is Some ==> schema.subcommand->0.optional,
    ensures
        ({
            let r = spec_parse(schema, cmd, seq!["--"@] + rest);
            &&& r is Ok
            &&& r->Ok_0.positionals == seq![rest]
            &&& r->Ok_0.flags == init_model(schema).flags
            &&& r->Ok_0.subcommand is None
        }),
{
    let args = seq!["--"@] + rest;
    reveal_strlit("--");
    assert(args[0] == "--"@);
    assert("--"@.len() > 0 && "--"@[0] == '-');
    assert(args.subrange(1, args.len() as int) =~= rest);
    let m0 = init_model(schema);
    lemma_greedy_absorbs_verbatim(schema, cmd, rest, false, m0);
    lemma_distribute_at_last(schema, m0, rest);
    let d = spec_distribute(schema, m0, 0, rest);
    assert(m0.positionals[0] + rest =~= rest);
    assert(d.positionals =~= seq![rest]);
    assert forall|k: int| 0 <= k < schema.positionals@.len() implies !(
    #[trigger] schema.positionals@[k].optionality is Required && d.positionals[k].len() == 0) by {
        assert(schema.positionals@[k].optionality is Repeating);
    }
    assert forall|k: int| 0 <= k < schema.flags@.len() implies !(
    #[trigger] schema.flags@[k].optionality is Required && d.flags[k].values.len() == 0) by {
        assert(!(schema.flags@[k].optionality is Required));
    }
    lemma_no_missing_options(schema, d, 0);
    lemma_no_missing_positionals(schema, d, 0);
    assert(spec_parse(schema, cmd, args) == spec_finalize(schema, cmd, false, d));
}

/// A repeating tail takes the leftovers in order: with plain tokens and a
/// schema of required positionals before one repeating tail, each leading
/// token fills its own slot and the tail takes all the rest, in order.
pub proof fn lemma_repeating_positional_absorbs(schema: HelpInfo, cmd: Seq<Seq<char>>, args: Seq<Seq<char>>)
    requires
        schema.positionals@.len() >= 1,
        schema.positionals@.last().optionality is Repeating || schema.positionals@.last().optionality
            is Greedy,
        forall|i: int|
            0 <= i < schema.positionals@.len() ==> (#[trigger] schema.positionals@[i].parser)
                is Text,
        forall|j: int|
            0 <= j < args.len() ==> spec_plain_token(schema, #[trigger] args[j]) && (
            schema.subcommand is Some ==> spec_sub_lookup(spec_sub_entries(schema), args[j])
                is None),
        args.len() >= schema.positionals@.len() - 1,
        forall|k: int|
            0 <= k < schema.flags@.len() ==> !(#[trigger] schema.flags@[k].optionality is Required),
        schema.subcommand is Some ==> schema.subcommand->0.optional,
    ensures
        ({
            let last = schema.positionals@.len() - 1;
            let r = spec_parse(schema, cmd, args);
            &&& r is Ok
            &&& (forall|i: int| 0 <= i < last ==> r->Ok_0.positionals[i] == seq![#[trigger] args[i]])
            &&& r->Ok_0.positionals[last] == args.subrange(last, args.len() as int)
            &&& r->Ok_0.flags == init_model(schema).flags
        }),
{
    let last = schema.positionals@.len() - 1;
    let m0 = init_model(schema);
    lemma_positional_routing(schema, cmd, args, false, false, 0, m0);
    lemma_distribute_prefix(schema, m0, 0, args);
    let d = spec_distribute(schema, m0, 0, args);
    assert forall|i: int| 0 <= i < last implies d.positionals[i] == seq![#[trigger] args[i]] by {
        assert(d.positionals[i] == m0.positionals[i].push(args[i - 0]));
        assert(m0.positionals[i] =~= Seq::<Seq<char>>::empty());
        assert(d.positionals[i] =~= seq![args[i]]);
    }
    assert(d.positionals[last] == m0.positionals[last] + args.subrange(
        last - 0,
        args.len() as int,
    ));
    assert(m0.positionals[last] + args.subrange(last, args.len() as int) =~= args.subrange(
        last,
        args.len() as int,
    ));
    assert forall|k: int| 0 <= k < schema.positionals@.len() implies !(
    #[trigger] schema.positionals@[k].optionality is Required && d.positionals[k].len() == 0) by {
        if k < last {
            assert(d.positionals[k] == seq![args[k]]);
        } else {
            assert(schema.positionals@[k].optionality is Repeating || schema.positionals@[k].optionality
                is Greedy);
        }
    }
    assert forall|k: int| 0 <= k < schema.flags@.len() implies !(
    #[trigger] schema.flags@[k].optionality is Required && d.flags[k].values.len() == 0) by {
        assert(!(schema.flags@[k].optionality is Required));
    }
    lemma_no_missing_options(schema, d, 0);
    lemma_no_missing_positionals(schema, d, 0);
    assert(spec_parse(schema, cmd, args) == spec_finalize(schema, cmd, false, d));
}

/// How distribution from slot `pi` lays tokens out when they at least fill
/// the remaining one-token slots: one each for the slots before the last,
/// the rest appended to the last.
proof fn lemma_distribute_prefix(schema: HelpInfo, m: ParseModel, pi: int, rem: Seq<Seq<char>>)
    requires
        schema.positionals@.len() >= 1,
        0 <= pi < schema.positionals@.len(),
        m.positionals.len() == schema.positionals@.len(),
        schema.positionals@.last().optionality is Repeating || schema.positionals@.last().optionality
            is Greedy,
        rem.len() >= schema.positionals@.len() - 1 - pi,
    ensures
        ({
            let last = schema.positionals@.len() - 1;
            let d = spec_distribute(schema, m, pi, rem);
            &&& (forall|i: int| 0 <= i < pi ==> d.positionals[i] == m.positionals[i])
            &&& (forall|i: int|
                pi <= i < last ==> d.positionals[i] == m.positionals[i].push(
                    #[trigger] rem[i - pi],
                ))
            &&& d.positionals[last] == m.positionals[last] + rem.subrange(
                last - pi,
                rem.len() as int,
            )
            &&& d.flags == m.flags
            &&& d.subcommand == m.subcommand
        }),
    decreases schema.positionals@.len() - pi,
{
    let last = schema.positionals@.len() - 1;
    if pi == last {
        lemma_distribute_at_last(schema, m, rem);
        assert(rem.subrange(0, rem.len() as int) =~= rem);
        let d = spec_distribute(schema, m, pi, rem);
        assert(d.positionals[last] == m.positionals[last] + rem.subrange(
            last - pi,
            rem.len() as int,
        ));
    } else {
        assert(rem.len() > 0);
        let tok = rem[0];
        let rest = rem.subrange(1, rem.len() as int);
        let p = schema.positionals@[pi];
        let m2 = crate::model::spec_pos_fill(m, pi, tok, p.name@);
        lemma_distribute_prefix(schema, m2, pi + 1, rest);
        let d = spec_distribute(schema, m, pi, rem);
        assert(d == spec_distribute(schema, m2, pi + 1, rest));
        assert(forall|j: int| 0 <= j < rest.len() ==> #[trigger] rest[j] == rem[j + 1]);
        assert forall|i: int| pi <= i < last implies d.positionals[i] == m.positionals[i].push(
            #[trigger] rem[i - pi],
        ) by {
            if i == pi {
                assert(d.positionals[pi] == m2.positionals[pi]);
                assert(m2.positionals[pi] == m.positionals[pi].push(tok));
                assert(rem[pi - pi] == tok);
            } else {
                assert(d.positionals[i] == m2.positionals[i].push(rest[i - (pi + 1)]));
                assert(m2.positionals[i] == m.positionals[i]);
                assert(rest[i - (pi + 1)] == rem[i - pi]);
            }
        }
        assert(d.positionals[last] == m2.positionals[last] + rest.subrange(
            last - (pi + 1),
            rest.len() as int,
        ));
        assert(m2.positionals[last] == m.positionals[last]);
        assert(rest.subrange(last - (pi + 1), rest.len() as int) =~= rem.subrange(
            last - pi,
            rem.len() as int,
        ));
    }
}

/// A token that selects entry `a` cannot select an entry that `a` does not
/// cross-match into.
proof fn lemma_token_of_entry(a: HelpSubCommandInfo, b: HelpSubCommandInfo, t: Seq<char>)
    requires
        spec_sub_matches(a, t),
        spec_no_sub_cross_match(a, b),
    ensures
        !spec_sub_matches(b, t),
{
    if t == a.name@ {
    } else if a.short is Some && t == a.short->0@ {
    } else {
        let k = choose|k: int|
            0 <= k < views_of(a.synonyms@).len() && views_of(a.synonyms@)[k] == t;
        assert(a.synonyms@[k]@ == t);
    }
}

/// A token with an equals sign in it never selects a flag whose names are
/// free of equals signs; supplied as a flag it is always rejected as
/// unrecognized, since the parser never splits on `=`.
pub open spec fn spec_no_eq_in_names(f: HelpFlagInfo) -> bool {
    &&& !(exists|k: int| 0 <= k < f.long@.len() && f.long@[k] == '=')
    &&& (f.short is Some ==> f.short->0 != '=')
    &&& (forall|j: int, k: int|
        0 <= j < f.synonyms@.len() && 0 <= k < f.synonyms@[j]@.len() ==> f.synonyms@[j]@[k] != '=')
}

/// An equals-joined flag token is always rejected as unrecognized.
pub proof fn lemma_equals_joined_rejected(
    schema: HelpInfo,
    cmd: Seq<Seq<char>>,
    t: Seq<char>,
    rest: Seq<Seq<char>>,
    k: int,
)
    requires
        t.len() > 0,
        t[0] == '-',
        0 <= k < t.len(),
        t[k] == '=',
        forall|j: int, x: int|
            0 <= j < schema.help_triggers@.len() && 0 <= x < schema.help_triggers@[j]@.len()
                ==> schema.help_triggers@[j]@[x] != '=',
        forall|j: int| 0 <= j < schema.flags@.len() ==> spec_no_eq_in_names(#[trigger] schema.flags@[j]),
    ensures
        spec_parse(schema, cmd, seq![t] + rest) == Err::<ParseModel, ExitModel>(
            ExitModel { output: crate::msgs::spec_unrecognized(t), ok: false },
        ),
{
    let args = seq![t] + rest;
    assert(args[0] == t);
    assert(!views_of(schema.help_triggers@).contains(t)) by {
        if views_of(schema.help_triggers@).contains(t) {
            let j = choose|j: int|
                0 <= j < views_of(schema.help_triggers@).len() && views_of(
                    schema.help_triggers@,
                )[j] == t;
            assert(schema.help_triggers@[j]@ == t);
            assert(schema.help_triggers@[j]@[k] != '=');
        }
    }
    assert(t != "--"@) by {
        reveal_strlit("--");
        if t == "--"@ {
            assert(t.len() == 2);
            assert(t[k] == '-');
        }
    }
    assert forall|j: int| 0 <= j < schema.flags@.len() implies !spec_flag_matches(
        #[trigger] schema.flags@[j],
        t,
    ) by {
        let f = schema.flags@[j];
        if t == f.long@ {
            assert(f.long@[k] == '=');
        }
        if f.short is Some && t == seq!['-', f.short->0] {
            assert(t.len() == 2);
            assert(k == 1);
            assert(f.short->0 == '=');
        }
        if views_of(f.synonyms@).contains(t) {
            let x = choose|x: int|
                0 <= x < views_of(f.synonyms@).len() && views_of(f.synonyms@)[x] == t;
            assert(f.synonyms@[x]@ == t);
            assert(f.synonyms@[x]@[k] != '=');
        }
    }
    lemma_flag_lookup_props(schema.flags@, t);
    if spec_flag_lookup(schema.flags@, t) is Some {
        let j = spec_flag_lookup(schema.flags@, t)->0;
        assert(!spec_flag_matches(schema.flags@[j], t));
    }
}

} // verus!
