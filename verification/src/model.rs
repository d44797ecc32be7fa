//! The mathematical model of one parse: the accumulated slot contents, and
//! the token-consuming state machine stated as a recursive spec function.
//! The executable parser is proved to return exactly what this model says.

use vstd::prelude::*;
use crate::coerce::{spec_coerce_err, spec_coerce_ok};
use crate::help::spec_help;
use crate::msgs::{
    spec_no_value, spec_option_error, spec_positional_error, spec_trailing_after_help,
    spec_unrecognized,
};
use crate::requirements::spec_missing_message;
use crate::schema::{HelpFieldKind, HelpFlagInfo, HelpInfo, HelpSubCommandInfo, ValueParser};
use crate::strtools::views_of;

verus! {

/// What one flag slot has accumulated: occurrences for a switch, value
/// tokens for an option.
#[verifier::ext_equal]
pub struct FlagSlotModel {
    /// How often the switch was supplied, saturating.
    pub count: u64,
    /// The raw value tokens of an option, in encounter order.
    pub values: Seq<Seq<char>>,
}

/// What a whole parse has accumulated.
#[verifier::ext_equal]
pub struct ParseModel {
    /// One slot per flag, in declaration order.
    pub flags: Seq<FlagSlotModel>,
    /// One list of raw tokens per positional, in declaration order.
    pub positionals: Seq<Seq<Seq<char>>>,
    /// The redaction trace: one name per supplied argument, in encounter
    /// order — the flag token as typed, or the positional's name.
    pub redacted: Seq<Seq<char>>,
    /// The dispatched subcommand, if one was matched.
    pub subcommand: Option<Box<SubModel>>,
}

/// A dispatched subcommand: its canonical name and its own parse.
#[verifier::ext_equal]
pub struct SubModel {
    /// The canonical name, whichever alias was typed.
    pub name: Seq<char>,
    /// The nested command's accumulated parse.
    pub args: ParseModel,
}

/// An early exit: the rendered text and whether it reports success (help)
/// or failure (a parse error).
#[verifier::ext_equal]
pub struct ExitModel {
    /// The text to show the user.
    pub output: Seq<char>,
    /// True exactly for the help path.
    pub ok: bool,
}

/// The empty accumulation for a schema: every slot empty.
pub open spec fn init_model(schema: HelpInfo) -> ParseModel {
    ParseModel {
        flags: Seq::new(
            schema.flags@.len(),
            |i: int| FlagSlotModel { count: 0, values: Seq::empty() },
        ),
        positionals: Seq::new(schema.positionals@.len(), |i: int| Seq::empty()),
        redacted: Seq::empty(),
        subcommand: None,
    }
}

/// Whether `tok` selects this flag: its long name, its short alias as a
/// one-dash token, or any synonym.
pub open spec fn spec_flag_matches(f: HelpFlagInfo, tok: Seq<char>) -> bool {
    tok == f.long@ || (f.short is Some && tok == seq!['-', f.short->0]) || views_of(
        f.synonyms@,
    ).contains(tok)
}

/// The index of the first flag that `tok` selects.
pub open spec fn spec_flag_lookup(fs: Seq<HelpFlagInfo>, tok: Seq<char>) -> Option<int>
    decreases fs.len(),
{
    if fs.len() == 0 {
        None
    } else if spec_flag_matches(fs[0], tok) {
        Some(0)
    } else {
        match spec_flag_lookup(fs.subrange(1, fs.len() as int), tok) {
            None => None,
            Some(j) => Some(j + 1),
        }
    }
}

/// Whether `tok` selects this subcommand: its name, short alias or synonym.
pub open spec fn spec_sub_matches(c: HelpSubCommandInfo, tok: Seq<char>) -> bool {
    tok == c.name@ || (c.short is Some && tok == c.short->0@) || views_of(c.synonyms@).contains(tok)
}

/// The index of the first subcommand that `tok` selects.
pub open spec fn spec_sub_lookup(cs: Seq<HelpSubCommandInfo>, tok: Seq<char>) -> Option<int>
    decreases cs.len(),
{
    if cs.len() == 0 {
        None
    } else if spec_sub_matches(cs[0], tok) {
        Some(0)
    } else {
        match spec_sub_lookup(cs.subrange(1, cs.len() as int), tok) {
            None => None,
            Some(j) => Some(j + 1),
        }
    }
}

/// What a flag lookup result means: the first match, and nothing earlier.
pub proof fn lemma_flag_lookup_props(fs: Seq<HelpFlagInfo>, tok: Seq<char>)
    ensures
        match spec_flag_lookup(fs, tok) {
            Some(j) => 0 <= j < fs.len() && spec_flag_matches(fs[j], tok) && (forall|k: int|
                0 <= k < j ==> !spec_flag_matches(fs[k], tok)),
            None => forall|k: int| 0 <= k < fs.len() ==> !spec_flag_matches(fs[k], tok),
        },
    decreases fs.len(),
{
    if fs.len() > 0 && !spec_flag_matches(fs[0], tok) {
        let tail = fs.subrange(1, fs.len() as int);
        lemma_flag_lookup_props(tail, tok);
        assert(forall|k: int| 0 <= k < tail.len() ==> tail[k] == fs[k + 1]);
        match spec_flag_lookup(tail, tok) {
            None => {
                assert forall|k: int| 0 <= k < fs.len() implies !spec_flag_matches(
                    fs[k],
                    tok,
                ) by {
                    if k >= 1 {
                        assert(!spec_flag_matches(tail[k - 1], tok));
                    }
                }
            },
            Some(j) => {
                assert(spec_flag_lookup(fs, tok) == Some(j + 1));
                assert(spec_flag_matches(fs[j + 1], tok));
                assert forall|k: int| 0 <= k < j + 1 implies !spec_flag_matches(
                    fs[k],
                    tok,
                ) by {
                    if k >= 1 {
                        assert(!spec_flag_matches(tail[k - 1], tok));
                    }
                }
            },
        }
    }
}

/// What a subcommand lookup result means: the first match, and nothing
/// earlier.
pub proof fn lemma_sub_lookup_props(cs: Seq<HelpSubCommandInfo>, tok: Seq<char>)
    ensures
        match spec_sub_lookup(cs, tok) {
            Some(j) => 0 <= j < cs.len() && spec_sub_matches(cs[j], tok) && (forall|k: int|
                0 <= k < j ==> !spec_sub_matches(cs[k], tok)),
            None => forall|k: int| 0 <= k < cs.len() ==> !spec_sub_matches(cs[k], tok),
        },
    decreases cs.len(),
{
    if cs.len() > 0 && !spec_sub_matches(cs[0], tok) {
        let tail = cs.subrange(1, cs.len() as int);
        lemma_sub_lookup_props(tail, tok);
        assert(forall|k: int| 0 <= k < tail.len() ==> tail[k] == cs[k + 1]);
        match spec_sub_lookup(tail, tok) {
            None => {
                assert forall|k: int| 0 <= k < cs.len() implies !spec_sub_matches(
                    cs[k],
                    tok,
                ) by {
                    if k >= 1 {
                        assert(!spec_sub_matches(tail[k - 1], tok));
                    }
                }
            },
            Some(j) => {
                assert(spec_sub_lookup(cs, tok) == Some(j + 1));
                assert(spec_sub_matches(cs[j + 1], tok));
                assert forall|k: int| 0 <= k < j + 1 implies !spec_sub_matches(
                    cs[k],
                    tok,
                ) by {
                    if k >= 1 {
                        assert(!spec_sub_matches(tail[k - 1], tok));
                    }
                }
            },
        }
    }
}

/// The subcommand entries of a schema: the static ones, then the dynamic.
pub open spec fn spec_sub_entries(schema: HelpInfo) -> Seq<HelpSubCommandInfo> {
    if schema.subcommand is Some {
        schema.subcommand->0.commands@ + schema.subcommand->0.dynamic_commands@
    } else {
        Seq::empty()
    }
}

/// One more occurrence of switch `i`, supplied as `tok`.
pub open spec fn spec_switch_inc(m: ParseModel, i: int, tok: Seq<char>) -> ParseModel {
    ParseModel {
        flags: m.flags.update(
            i,
            FlagSlotModel {
                count: if m.flags[i].count < u64::MAX {
                    (m.flags[i].count + 1) as u64
                } else {
                    u64::MAX
                },
                values: m.flags[i].values,
            },
        ),
        redacted: m.redacted.push(tok),
        ..m
    }
}

/// Option `i`, supplied as `tok`, receives the value token `value`.
pub open spec fn spec_option_fill(m: ParseModel, i: int, tok: Seq<char>, value: Seq<char>) -> ParseModel {
    ParseModel {
        flags: m.flags.update(
            i,
            FlagSlotModel { count: m.flags[i].count, values: m.flags[i].values.push(value) },
        ),
        redacted: m.redacted.push(tok),
        ..m
    }
}

/// Positional `i`, named `name`, receives the token `tok`.
pub open spec fn spec_pos_fill(m: ParseModel, i: int, tok: Seq<char>, name: Seq<char>) -> ParseModel {
    ParseModel {
        positionals: m.positionals.update(i, m.positionals[i].push(tok)),
        redacted: m.redacted.push(name),
        ..m
    }
}

/// The parse with a dispatched subcommand recorded.
pub open spec fn spec_with_sub(m: ParseModel, name: Seq<char>, child: ParseModel) -> ParseModel {
    ParseModel { subcommand: Some(Box::new(SubModel { name: name, args: child })), ..m }
}

/// The names of the required positionals, from index `i` on, whose slots
/// stayed empty, in declaration order.
pub open spec fn spec_missing_positionals_from(schema: HelpInfo, m: ParseModel, i: int) -> Seq<
    Seq<char>,
>
    decreases schema.positionals@.len() - i,
{
    if i < 0 || i >= schema.positionals@.len() {
        Seq::empty()
    } else {
        (if schema.positionals@[i].optionality is Required && m.positionals[i].len() == 0 {
            seq![schema.positionals@[i].name@]
        } else {
            Seq::empty()
        }) + spec_missing_positionals_from(schema, m, i + 1)
    }
}

/// The names of the required positionals whose slots stayed empty, in
/// declaration order.
pub open spec fn spec_missing_positionals(schema: HelpInfo, m: ParseModel) -> Seq<Seq<char>> {
    spec_missing_positionals_from(schema, m, 0)
}

/// The long names of the required flags, from index `i` on, whose slots
/// stayed empty, in declaration order.
pub open spec fn spec_missing_options_from(schema: HelpInfo, m: ParseModel, i: int) -> Seq<
    Seq<char>,
>
    decreases schema.flags@.len() - i,
{
    if i < 0 || i >= schema.flags@.len() {
        Seq::empty()
    } else {
        (if schema.flags@[i].optionality is Required && m.flags[i].values.len() == 0 {
            seq![schema.flags@[i].long@]
        } else {
            Seq::empty()
        }) + spec_missing_options_from(schema, m, i + 1)
    }
}

/// The long names of the required flags whose slots stayed empty, in
/// declaration order.
pub open spec fn spec_missing_options(schema: HelpInfo, m: ParseModel) -> Seq<Seq<char>> {
    spec_missing_options_from(schema, m, 0)
}

/// Whether a required subcommand is absent.
pub open spec fn spec_missing_sub(schema: HelpInfo, m: ParseModel) -> bool {
    schema.subcommand is Some && !schema.subcommand->0.optional && m.subcommand is None
}

/// The canonical names of a subcommand entry list.
pub open spec fn names_of_entries(cs: Seq<HelpSubCommandInfo>) -> Seq<Seq<char>> {
    cs.map_values(|c: HelpSubCommandInfo| c.name@)
}

/// The canonical names of all subcommand entries.
pub open spec fn spec_sub_names_of(schema: HelpInfo) -> Seq<Seq<char>> {
    names_of_entries(spec_sub_entries(schema))
}

/// The end of a scan: help text if help was triggered, else the deficiency
/// report if anything required is missing, else the accumulated parse.
pub open spec fn spec_finalize(schema: HelpInfo, cmd: Seq<Seq<char>>, help: bool, m: ParseModel) -> Result<
    ParseModel,
    ExitModel,
> {
    if help {
        Err(ExitModel { output: spec_help(schema, cmd), ok: true })
    } else {
        let mp = spec_missing_positionals(schema, m);
        let mo = spec_missing_options(schema, m);
        if mp.len() > 0 || mo.len() > 0 || spec_missing_sub(schema, m) {
            Err(
                ExitModel {
                    output: spec_missing_message(
                        mp,
                        mo,
                        if spec_missing_sub(schema, m) {
                            Some(spec_sub_names_of(schema))
                        } else {
                            None
                        },
                    ),
                    ok: false,
                },
            )
        } else {
            Ok(m)
        }
    }
}

/// The coercion rule of flag `f`; `Text` for a switch, which never coerces.
pub open spec fn spec_flag_parser(f: HelpFlagInfo) -> ValueParser {
    match f.kind {
        HelpFieldKind::Switch => ValueParser::Text,
        HelpFieldKind::Option { arg_name, parser } => parser,
    }
}

/// The token-consuming state machine.  One call consumes the first remaining
/// token (and an option's value token with it), or finishes the scan.
pub open spec fn spec_scan(
    schema: HelpInfo,
    cmd: Seq<Seq<char>>,
    remaining: Seq<Seq<char>>,
    help: bool,
    options_ended: bool,
    pos_index: int,
    m: ParseModel,
) -> Result<ParseModel, ExitModel>
    decreases schema, 0int, remaining.len(),
{
    if remaining.len() == 0 {
        spec_finalize(schema, cmd, help, m)
    } else {
        let tok = remaining[0];
        let rest = remaining.subrange(1, remaining.len() as int);
        if !options_ended && views_of(schema.help_triggers@).contains(tok) {
            spec_scan(schema, cmd, rest, true, options_ended, pos_index, m)
        } else if !options_ended && tok.len() > 0 && tok[0] == '-' {
            if tok == "--"@ {
                spec_scan(schema, cmd, rest, help, true, pos_index, m)
            } else if help {
                Err(ExitModel { output: spec_trailing_after_help(), ok: false })
            } else {
                match spec_flag_lookup(schema.flags@, tok) {
                    None => Err(ExitModel { output: spec_unrecognized(tok), ok: false }),
                    Some(i) => {
                        let f = schema.flags@[i];
                        if f.kind is Switch {
                            spec_scan(
                                schema,
                                cmd,
                                rest,
                                help,
                                options_ended,
                                pos_index,
                                spec_switch_inc(m, i, tok),
                            )
                        } else if rest.len() == 0 {
                            Err(ExitModel { output: spec_no_value(tok), ok: false })
                        } else {
                            let value = rest[0];
                            if !(f.optionality is Repeating) && m.flags[i].values.len() > 0 {
                                Err(
                                    ExitModel {
                                        output: spec_option_error(
                                            tok,
                                            value,
                                            "duplicate values provided"@,
                                        ),
                                        ok: false,
                                    },
                                )
                            } else if !spec_coerce_ok(spec_flag_parser(f), value) {
                                Err(
                                    ExitModel {
                                        output: spec_option_error(
                                            tok,
                                            value,
                                            spec_coerce_err(spec_flag_parser(f), value),
                                        ),
                                        ok: false,
                                    },
                                )
                            } else {
                                spec_scan(
                                    schema,
                                    cmd,
                                    rest.subrange(1, rest.len() as int),
                                    help,
                                    options_ended,
                                    pos_index,
                                    spec_option_fill(m, i, tok, value),
                                )
                            }
                        }
                    },
                }
            }
        } else if !options_ended && schema.subcommand is Some && spec_sub_lookup(
            spec_sub_entries(schema),
            tok,
        ) is Some {
            let idx = spec_sub_lookup(spec_sub_entries(schema), tok)->0;
            let e = spec_sub_entries(schema)[idx];
            let child_cmd = cmd.push(e.name@);
            let child_args = if help {
                seq!["help"@] + rest
            } else {
                rest
            };
            proof {
                lemma_sub_lookup_props(spec_sub_entries(schema), tok);
                assert(decreases_to!(schema => schema.subcommand));
                assert(decreases_to!(schema.subcommand => schema.subcommand->0));
                if idx < schema.subcommand->0.commands@.len() {
                    assert(e == schema.subcommand->0.commands@[idx]);
                    assert(decreases_to!(
                        schema.subcommand->0 => schema.subcommand->0.commands));
                    assert(decreases_to!(
                        schema.subcommand->0.commands => schema.subcommand->0.commands@));
                    assert(decreases_to!(
                        schema.subcommand->0.commands@ => schema.subcommand->0.commands@[idx]));
                    assert(decreases_to!(
                        schema.subcommand->0.commands@[idx]
                            => schema.subcommand->0.commands@[idx].info));
                } else {
                    let j = idx - schema.subcommand->0.commands@.len();
                    assert(e == schema.subcommand->0.dynamic_commands@[j]);
                    assert(decreases_to!(
                        schema.subcommand->0 => schema.subcommand->0.dynamic_commands));
                    assert(decreases_to!(
                        schema.subcommand->0.dynamic_commands
                            => schema.subcommand->0.dynamic_commands@));
                    assert(decreases_to!(
                        schema.subcommand->0.dynamic_commands@
                            => schema.subcommand->0.dynamic_commands@[j]));
                    assert(decreases_to!(
                        schema.subcommand->0.dynamic_commands@[j]
                            => schema.subcommand->0.dynamic_commands@[j].info));
                }
                assert(decreases_to!(schema => e.info));
            }
            match spec_parse(e.info, child_cmd, child_args) {
                Err(x) => Err(x),
                Ok(child) => spec_finalize(schema, cmd, false, spec_with_sub(m, e.name@, child)),
            }
        } else {
            if pos_index < schema.positionals@.len() {
                let p = schema.positionals@[pos_index];
                if !spec_coerce_ok(p.parser, tok) {
                    Err(
                        ExitModel {
                            output: spec_positional_error(
                                p.name@,
                                tok,
                                spec_coerce_err(p.parser, tok),
                            ),
                            ok: false,
                        },
                    )
                } else {
                    let stay = pos_index == schema.positionals@.len() - 1 && (p.optionality
                        is Repeating || p.optionality is Greedy);
                    spec_scan(
                        schema,
                        cmd,
                        rest,
                        help,
                        options_ended || (stay && p.optionality is Greedy),
                        if stay {
                            pos_index
                        } else {
                            pos_index + 1
                        },
                        spec_pos_fill(m, pos_index, tok, p.name@),
                    )
                }
            } else {
                Err(ExitModel { output: spec_unrecognized(tok), ok: false })
            }
        }
    }
}

/// One whole parse of `args` against `schema` at command path `cmd`.
pub open spec fn spec_parse(schema: HelpInfo, cmd: Seq<Seq<char>>, args: Seq<Seq<char>>) -> Result<
    ParseModel,
    ExitModel,
>
    decreases schema, 1int, args.len(),
{
    spec_scan(schema, cmd, args, false, false, 0, init_model(schema))
}

} // verus!
