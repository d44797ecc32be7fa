//! The executable parsing state machine, proved to return exactly what the
//! spec-level machine in [`crate::model`] says.

use vstd::prelude::*;
use vstd::string::StrSliceExecFns;
use vstd::string::StringExecFns;
use crate::coerce::{check_value, spec_coerce_err, spec_coerce_ok};
use crate::model::{
    init_model, lemma_flag_lookup_props, lemma_sub_lookup_props, spec_flag_lookup,
    spec_flag_matches, spec_flag_parser, spec_finalize, spec_missing_options,
    spec_missing_positionals, spec_missing_sub, spec_option_fill, spec_parse, spec_pos_fill,
    spec_scan, spec_sub_entries, spec_sub_lookup, spec_sub_matches, spec_sub_names_of,
    spec_switch_inc, spec_with_sub, ExitModel, FlagSlotModel, ParseModel, SubModel,
};
use crate::msgs::{
    no_value_provided, option_parse_error, positional_parse_error, unrecognized_arg,
    unrecognized_argument,
};
use crate::requirements::MissingRequirements;
use crate::schema::{HelpFieldKind, HelpFlagInfo, HelpInfo, HelpSubCommandInfo, ValueParser};
use crate::strtools::{contains_str, starts_with_char, str_eq, views_of};

verus! {

/// Why a parse returned before producing a value: rendered help text (a
/// success) or an error message (a failure).
#[derive(Debug)]
pub struct EarlyExit {
    /// The text to display to the user of the command-line tool.
    pub output: String,
    /// `Ok` when the exit is the help path; `Err` for a parse failure.
    pub status: Result<(), ()>,
}

impl View for EarlyExit {
    type V = ExitModel;

    open spec fn view(&self) -> ExitModel {
        ExitModel { output: self.output@, ok: self.status is Ok }
    }
}

impl From<String> for EarlyExit {
    /// An error message becomes a failure exit.
    fn from(err_msg: String) -> (r: EarlyExit) {
        EarlyExit { output: err_msg, status: Err(()) }
    }
}

impl vstd::std_specs::convert::FromSpecImpl<String> for EarlyExit {
    open spec fn obeys_from_spec() -> bool {
        true
    }

    open spec fn from_spec(err_msg: String) -> EarlyExit {
        EarlyExit { output: err_msg, status: Err(()) }
    }
}

/// One flag's accumulation: occurrences of a switch, value tokens of an
/// option.
#[derive(Debug)]
pub struct FlagSlot {
    /// How often the switch was supplied, saturating.
    pub count: u64,
    /// The raw value tokens of an option, in encounter order.
    pub values: Vec<String>,
}

/// The populated result of one parse, schema-shaped: one slot per flag, one
/// token list per positional, the redaction trace and the dispatched
/// subcommand.
#[derive(Debug)]
pub struct ParsedArgs {
    /// One slot per flag, in declaration order.
    pub flags: Vec<FlagSlot>,
    /// The raw tokens each positional received, in declaration order.
    pub positionals: Vec<Vec<String>>,
    /// One name per supplied argument, in encounter order: the flag token as
    /// typed, or the positional's name — never a user-supplied value.
    pub redacted: Vec<String>,
    /// The dispatched subcommand, if one was matched.
    pub subcommand: Option<Box<ParsedSubCommand>>,
}

/// A dispatched subcommand: its canonical name and its own parse result.
#[derive(Debug)]
pub struct ParsedSubCommand {
    /// The canonical name, whichever alias was typed.
    pub name: String,
    /// The nested command's parse result.
    pub args: ParsedArgs,
}

/// The model of one flag slot.
pub open spec fn flag_slot_view(s: FlagSlot) -> FlagSlotModel {
    FlagSlotModel { count: s.count, values: views_of(s.values@) }
}

/// The model of a parse result.
pub open spec fn parsed_view(p: ParsedArgs) -> ParseModel
    decreases p,
{
    ParseModel {
        flags: p.flags@.map_values(|s: FlagSlot| flag_slot_view(s)),
        positionals: p.positionals@.map_values(|v: Vec<String>| views_of(v@)),
        redacted: views_of(p.redacted@),
        subcommand: if p.subcommand is Some {
            Some(
                Box::new(
                    SubModel {
                        name: p.subcommand->0.name@,
                        args: parsed_view(p.subcommand->0.args),
                    },
                ),
            )
        } else {
            None
        },
    }
}

impl View for ParsedArgs {
    type V = ParseModel;

    open spec fn view(&self) -> ParseModel {
        parsed_view(*self)
    }
}

/// The model of the accumulation while no subcommand was dispatched yet.
pub open spec fn acc_model(
    flags: Seq<FlagSlot>,
    positionals: Seq<Vec<String>>,
    redacted: Seq<String>,
) -> ParseModel {
    ParseModel {
        flags: flags.map_values(|s: FlagSlot| flag_slot_view(s)),
        positionals: positionals.map_values(|v: Vec<String>| views_of(v@)),
        redacted: views_of(redacted),
        subcommand: None,
    }
}

/// Whether `tok` selects the flag `f`.
fn flag_matches(f: &HelpFlagInfo, tok: &str) -> (r: bool)
    ensures
        r == spec_flag_matches(*f, tok@),
{
    if str_eq(f.long.as_str(), tok) {
        return true;
    }
    match f.short {
        Some(c) => {
            if tok.unicode_len() == 2 && tok.get_char(0) == '-' && tok.get_char(1) == c {
                proof {
                    assert(tok@ =~= seq!['-', c]);
                }
                return true;
            }
            proof {
                assert(tok@ != seq!['-', c]);
            }
        },
        None => {},
    }
    contains_str(f.synonyms.as_slice(), tok)
}

/// The index of the first flag that `tok` selects.
fn flag_lookup(fs: &Vec<HelpFlagInfo>, tok: &str) -> (r: Option<usize>)
    ensures
        match r {
            Some(i) => i < fs@.len() && spec_flag_lookup(fs@, tok@) == Some(i as int),
            None => spec_flag_lookup(fs@, tok@) is None,
        },
{
    let n: usize = fs.len();
    let mut i: usize = 0;
    while i < n
        invariant
            n == fs@.len(),
            i <= n,
            forall|k: int| 0 <= k < i ==> !spec_flag_matches(fs@[k], tok@),
        decreases n - i,
    {
        if flag_matches(&fs[i], tok) {
            proof {
                lemma_first_match_is_lookup_flag(fs@, tok@, i as int);
            }
            return Some(i);
        }
        i = i + 1;
    }
    proof {
        lemma_flag_lookup_props(fs@, tok@);
        if spec_flag_lookup(fs@, tok@) is Some {
            let x = spec_flag_lookup(fs@, tok@)->0;
            assert(!spec_flag_matches(fs@[x], tok@));
        }
    }
    None
}

/// Whether `tok` selects the subcommand `c`.
fn sub_matches(c: &HelpSubCommandInfo, tok: &str) -> (r: bool)
    ensures
        r == spec_sub_matches(*c, tok@),
{
    if str_eq(c.name.as_str(), tok) {
        return true;
    }
    match &c.short {
        Some(s) => {
            if str_eq(s.as_str(), tok) {
                return true;
            }
        },
        None => {},
    }
    contains_str(c.synonyms.as_slice(), tok)
}

/// The first subcommand entry that `tok` selects: in the static list
/// (`false`) or the dynamic list (`true`), with its index there.
fn sub_lookup(sub: &crate::schema::HelpSubCommandsInfo, tok: &str, Ghost(schema): Ghost<HelpInfo>) -> (r:
    Option<(bool, usize)>)
    requires
        schema.subcommand == Some(*sub),
    ensures
        match r {
            Some((dynamic, i)) => {
                &&& !dynamic ==> i < sub.commands@.len() && spec_sub_lookup(
                    spec_sub_entries(schema),
                    tok@,
                ) == Some(i as int)
                &&& dynamic ==> i < sub.dynamic_commands@.len() && spec_sub_lookup(
                    spec_sub_entries(schema),
                    tok@,
                ) == Some(sub.commands@.len() + i)
            },
            None => spec_sub_lookup(spec_sub_entries(schema), tok@) is None,
        },
{
    let ghost entries = spec_sub_entries(schema);
    let n1: usize = sub.commands.len();
    let n2: usize = sub.dynamic_commands.len();
    let mut i: usize = 0;
    while i < n1
        invariant
            n1 == sub.commands@.len(),
            n2 == sub.dynamic_commands@.len(),
            entries == sub.commands@ + sub.dynamic_commands@,
            entries == spec_sub_entries(schema),
            i <= n1,
            forall|k: int| 0 <= k < i ==> !spec_sub_matches(entries[k], tok@),
        decreases n1 - i,
    {
        proof {
            assert(entries[i as int] == sub.commands@[i as int]);
        }
        if sub_matches(&sub.commands[i], tok) {
            proof {
                lemma_sub_lookup_props(entries, tok@);
                lemma_first_match_is_lookup_sub(entries, tok@, i as int);
            }
            return Some((false, i));
        }
        i = i + 1;
    }
    let mut j: usize = 0;
    while j < n2
        invariant
            n1 == sub.commands@.len(),
            n2 == sub.dynamic_commands@.len(),
            entries == sub.commands@ + sub.dynamic_commands@,
            entries == spec_sub_entries(schema),
            j <= n2,
            forall|k: int| 0 <= k < n1 + j ==> !spec_sub_matches(entries[k], tok@),
        decreases n2 - j,
    {
        proof {
            assert(entries[n1 + j] == sub.dynamic_commands@[j as int]);
        }
        if sub_matches(&sub.dynamic_commands[j], tok) {
            proof {
                lemma_first_match_is_lookup_sub(entries, tok@, n1 + j);
            }
            return Some((true, j));
        }
        j = j + 1;
    }
    proof {
        lemma_sub_lookup_props(entries, tok@);
        if spec_sub_lookup(entries, tok@) is Some {
            let x = spec_sub_lookup(entries, tok@)->0;
            assert(!spec_sub_matches(entries[x], tok@));
        }
    }
    None
}

/// A match at `i`, with none earlier, is what the lookup returns.
pub proof fn lemma_first_match_is_lookup_sub(cs: Seq<HelpSubCommandInfo>, tok: Seq<char>, i: int)
    requires
        0 <= i < cs.len(),
        spec_sub_matches(cs[i], tok),
        forall|k: int| 0 <= k < i ==> !spec_sub_matches(cs[k], tok),
    ensures
        spec_sub_lookup(cs, tok) == Some(i),
{
    lemma_sub_lookup_props(cs, tok);
    match spec_sub_lookup(cs, tok) {
        None => {
            assert(!spec_sub_matches(cs[i], tok));
        },
        Some(j) => {
            if j < i {
                assert(!spec_sub_matches(cs[j], tok));
            }
            if i < j {
                assert(!spec_sub_matches(cs[i], tok));
            }
        },
    }
}

/// A match at `i`, with none earlier, is what the flag lookup returns.
pub proof fn lemma_first_match_is_lookup_flag(fs: Seq<HelpFlagInfo>, tok: Seq<char>, i: int)
    requires
        0 <= i < fs.len(),
        spec_flag_matches(fs[i], tok),
        forall|k: int| 0 <= k < i ==> !spec_flag_matches(fs[k], tok),
    ensures
        spec_flag_lookup(fs, tok) == Some(i),
{
    lemma_flag_lookup_props(fs, tok);
    match spec_flag_lookup(fs, tok) {
        None => {
            assert(!spec_flag_matches(fs[i], tok));
        },
        Some(j) => {
            if j < i {
                assert(!spec_flag_matches(fs[j], tok));
            }
            if i < j {
                assert(!spec_flag_matches(fs[i], tok));
            }
        },
    }
}

/// Prepend the literal `help` token to an argument list, as handed on to a
/// subcommand that must render its own help.
pub fn prepend_help(args: &[String]) -> (r: Vec<String>)
    ensures
        views_of(r@) == seq!["help"@] + views_of(args@),
{
    let mut out: Vec<String> = Vec::new();
    out.push(String::from_str("help"));
    let n: usize = args.len();
    let mut i: usize = 0;
    while i < n
        invariant
            n == args@.len(),
            i <= n,
            views_of(out@) =~= seq!["help"@] + views_of(args@.subrange(0, i as int)),
        decreases n - i,
    {
        let ghost old_out = out@;
        out.push(args[i].clone());
        proof {
            crate::strtools::lemma_views_push(old_out, args@[i as int]);
            assert(args@.subrange(0, i + 1) =~= args@.subrange(0, i as int).push(args@[i as int]));
            crate::strtools::lemma_views_push(args@.subrange(0, i as int), args@[i as int]);
            assert(views_of(out@) =~= seq!["help"@] + views_of(args@.subrange(0, i + 1)));
        }
        i = i + 1;
    }
    proof {
        assert(args@.subrange(0, n as int) =~= args@);
    }
    out
}

/// The canonical names of all subcommand entries, static then dynamic.
fn collect_sub_names(sub: &crate::schema::HelpSubCommandsInfo, Ghost(schema): Ghost<HelpInfo>) -> (r:
    Vec<String>)
    requires
        schema.subcommand == Some(*sub),
    ensures
        views_of(r@) == spec_sub_names_of(schema),
{
    let ghost entries = spec_sub_entries(schema);
    let mut out: Vec<String> = Vec::new();
    let n1: usize = sub.commands.len();
    let n2: usize = sub.dynamic_commands.len();
    let mut i: usize = 0;
    while i < n1
        invariant
            n1 == sub.commands@.len(),
            n2 == sub.dynamic_commands@.len(),
            entries == sub.commands@ + sub.dynamic_commands@,
            entries == spec_sub_entries(schema),
            i <= n1,
            views_of(out@) == crate::model::names_of_entries(entries.subrange(0, i as int)),
        decreases n1 - i,
    {
        let ghost old_out = out@;
        proof {
            assert(entries[i as int] == sub.commands@[i as int]);
        }
        out.push(sub.commands[i].name.clone());
        proof {
            crate::strtools::lemma_views_push(old_out, sub.commands@[i as int].name);
            assert(entries.subrange(0, i + 1) =~= entries.subrange(0, i as int).push(
                entries[i as int],
            ));
            assert(crate::model::names_of_entries(entries.subrange(0, i + 1))
                =~= crate::model::names_of_entries(entries.subrange(0, i as int)).push(
                entries[i as int].name@,
            ));
        }
        i = i + 1;
    }
    let mut j: usize = 0;
    while j < n2
        invariant
            n1 == sub.commands@.len(),
            n2 == sub.dynamic_commands@.len(),
            entries == sub.commands@ + sub.dynamic_commands@,
            entries == spec_sub_entries(schema),
            j <= n2,
            views_of(out@) == crate::model::names_of_entries(entries.subrange(0, n1 + j)),
        decreases n2 - j,
    {
        let ghost old_out = out@;
        proof {
            assert(entries[n1 + j] == sub.dynamic_commands@[j as int]);
        }
        out.push(sub.dynamic_commands[j].name.clone());
        proof {
            crate::strtools::lemma_views_push(old_out, sub.dynamic_commands@[j as int].name);
            assert(entries.subrange(0, n1 + j + 1) =~= entries.subrange(0, n1 + j).push(
                entries[n1 + j],
            ));
            assert(crate::model::names_of_entries(entries.subrange(0, n1 + j + 1))
                =~= crate::model::names_of_entries(entries.subrange(0, n1 + j)).push(
                entries[n1 + j].name@,
            ));
        }
        j = j + 1;
    }
    proof {
        assert(entries.subrange(0, entries.len() as int) =~= entries);
    }
    out
}

/// Fill one positional slot with a raw token, after coercion-checking it.
pub fn parse_positional(arg: &str, slot: &mut Vec<String>, name: &str, parser: ValueParser) -> (r:
    Result<(), String>)
    ensures
        r is Ok <==> spec_coerce_ok(parser, arg@),
        r is Ok ==> views_of(final(slot)@) == views_of(old(slot)@).push(arg@),
        r is Err ==> *final(slot) == *old(slot) && r->Err_0@ == crate::msgs::spec_positional_error(
            name@,
            arg@,
            spec_coerce_err(parser, arg@),
        ),
{
    match check_value(parser, arg) {
        Ok(()) => {
            slot.push(String::from_str(arg));
            proof {
                assert(views_of(slot@) =~= views_of(old(slot)@).push(arg@));
            }
            Ok(())
        },
        Err(e) => Err(positional_parse_error(name, arg, e.as_str())),
    }
}

/// Fill one option slot with a raw value token, refusing a duplicate for a
/// non-repeating option and coercion-checking the value.
pub fn parse_option(
    arg: &str,
    value: &str,
    slot: &mut FlagSlot,
    repeating: bool,
    parser: ValueParser,
) -> (r: Result<(), String>)
    ensures
        r is Ok <==> ((repeating || old(slot).values@.len() == 0) && spec_coerce_ok(
            parser,
            value@,
        )),
        r is Ok ==> flag_slot_view(*final(slot)) == (FlagSlotModel {
            count: old(slot).count,
            values: views_of(old(slot).values@).push(value@),
        }),
        r is Err ==> *final(slot) == *old(slot),
        !repeating && old(slot).values@.len() > 0 ==> r is Err && r->Err_0@
            == crate::msgs::spec_option_error(arg@, value@, "duplicate values provided"@),
        (repeating || old(slot).values@.len() == 0) && !spec_coerce_ok(parser, value@) ==> r is Err
            && r->Err_0@ == crate::msgs::spec_option_error(
            arg@,
            value@,
            spec_coerce_err(parser, value@),
        ),
{
    if !repeating && slot.values.len() > 0 {
        return Err(option_parse_error(arg, value, "duplicate values provided"));
    }
    match check_value(parser, value) {
        Ok(()) => {
            slot.values.push(String::from_str(value));
            proof {
                assert(views_of(slot.values@) =~= views_of(old(slot).values@).push(value@));
            }
            Ok(())
        },
        Err(e) => Err(option_parse_error(arg, value, e.as_str())),
    }
}

/// The coercion rule of a flag; `Text` for a switch.
fn flag_parser(f: &HelpFlagInfo) -> (r: ValueParser)
    ensures
        r == spec_flag_parser(*f),
{
    match &f.kind {
        HelpFieldKind::Switch => ValueParser::Text,
        HelpFieldKind::Option { arg_name, parser } => *parser,
    }
}

/// End the scan: render help if it was triggered, else check requirements
/// and either report what is missing or assemble the populated result.
fn finalize_args(
    schema: &HelpInfo,
    cmd_name: &[String],
    flags: Vec<FlagSlot>,
    positionals: Vec<Vec<String>>,
    redacted: Vec<String>,
    subcommand: Option<Box<ParsedSubCommand>>,
    help: bool,
) -> (r: Result<ParsedArgs, EarlyExit>)
    requires
        flags@.len() == schema.flags@.len(),
        positionals@.len() == schema.positionals@.len(),
    ensures
        ({
            let m = parsed_view(
                ParsedArgs { flags: flags, positionals: positionals, redacted: redacted, subcommand: subcommand },
            );
            match r {
                Ok(p) => spec_finalize(*schema, views_of(cmd_name@), help, m) == Ok::<
                    ParseModel,
                    ExitModel,
                >(parsed_view(p)),
                Err(e) => spec_finalize(*schema, views_of(cmd_name@), help, m) == Err::<
                    ParseModel,
                    ExitModel,
                >(e@),
            }
        }),
{
    let ghost m = parsed_view(
        ParsedArgs {
            flags: flags,
            positionals: positionals,
            redacted: redacted,
            subcommand: subcommand,
        },
    );
    if help {
        let text = schema.help(cmd_name);
        return Err(EarlyExit { output: text, status: Ok(()) });
    }
    let mut mr = MissingRequirements::new();
    let np: usize = positionals.len();
    proof {
        assert(views_of(mr.positional_args@) + crate::model::spec_missing_positionals_from(
            *schema,
            m,
            0,
        ) =~= crate::model::spec_missing_positionals_from(*schema, m, 0));
    }
    let mut i: usize = 0;
    while i < np
        invariant
            np == positionals@.len(),
            np == schema.positionals@.len(),
            i <= np,
            m.positionals == positionals@.map_values(|v: Vec<String>| views_of(v@)),
            views_of(mr.options@) == Seq::<Seq<char>>::empty(),
            mr.subcommands is None,
            spec_missing_positionals(*schema, m) == views_of(mr.positional_args@)
                + crate::model::spec_missing_positionals_from(*schema, m, i as int),
        decreases np - i,
    {
        proof {
            assert(m.positionals[i as int] == views_of(positionals@[i as int]@));
        }
        if schema.positionals[i].optionality.is_required() && positionals[i].len() == 0 {
            mr.missing_positional_arg(schema.positionals[i].name.as_str());
            proof {
                assert(views_of(mr.positional_args@) + crate::model::spec_missing_positionals_from(
                    *schema,
                    m,
                    i + 1,
                ) =~= (views_of(mr.positional_args@).drop_last() + seq![
                    schema.positionals@[i as int].name@,
                ]) + crate::model::spec_missing_positionals_from(*schema, m, i + 1));
            }
        }
        i = i + 1;
    }
    let nf: usize = flags.len();
    proof {
        assert(views_of(mr.options@) + crate::model::spec_missing_options_from(*schema, m, 0)
            =~= crate::model::spec_missing_options_from(*schema, m, 0));
    }
    let mut j: usize = 0;
    while j < nf
        invariant
            nf == flags@.len(),
            nf == schema.flags@.len(),
            j <= nf,
            m.flags == flags@.map_values(|s: FlagSlot| flag_slot_view(s)),
            mr.subcommands is None,
            views_of(mr.positional_args@) == spec_missing_positionals(*schema, m),
            spec_missing_options(*schema, m) == views_of(mr.options@)
                + crate::model::spec_missing_options_from(*schema, m, j as int),
        decreases nf - j,
    {
        proof {
            assert(m.flags[j as int] == flag_slot_view(flags@[j as int]));
            assert(m.flags[j as int].values == views_of(flags@[j as int].values@));
        }
        if schema.flags[j].optionality.is_required() && flags[j].values.len() == 0 {
            mr.missing_option(schema.flags[j].long.as_str());
            proof {
                assert(views_of(mr.options@) + crate::model::spec_missing_options_from(
                    *schema,
                    m,
                    j + 1,
                ) =~= (views_of(mr.options@).drop_last() + seq![schema.flags@[j as int].long@])
                    + crate::model::spec_missing_options_from(*schema, m, j + 1));
            }
        }
        j = j + 1;
    }
    match &schema.subcommand {
        Some(sub) => {
            if !sub.optional && subcommand.is_none() {
                let names = collect_sub_names(sub, Ghost(*schema));
                mr.missing_subcommands(names);
            }
        },
        None => {},
    }
    proof {
        assert(m.subcommand is None <==> subcommand is None);
        assert(mr.subcommands is Some <==> spec_missing_sub(*schema, m));
    }
    match mr.err_on_any() {
        Ok(()) => Ok(
            ParsedArgs {
                flags: flags,
                positionals: positionals,
                redacted: redacted,
                subcommand: subcommand,
            },
        ),
        Err(msg) => Err(EarlyExit { output: msg, status: Err(()) }),
    }
}

/// Parse a token list against a schema at a command path: the central
/// token-consuming loop, held to the spec-level machine step for step.
#[verifier::rlimit(100)]
pub fn parse_struct_args(cmd_name: &[String], args: &[String], schema: &HelpInfo) -> (r: Result<
    ParsedArgs,
    EarlyExit,
>)
    ensures
        ({
            let spec = spec_parse(*schema, views_of(cmd_name@), views_of(args@));
            match r {
                Ok(p) => spec == Ok::<ParseModel, ExitModel>(parsed_view(p)),
                Err(e) => spec == Err::<ParseModel, ExitModel>(e@),
            }
        }),
    decreases *schema,
{
    let ghost cmdv = views_of(cmd_name@);
    let ghost argsv = views_of(args@);
    let nf: usize = schema.flags.len();
    let mut flags: Vec<FlagSlot> = Vec::new();
    while flags.len() < nf
        invariant
            flags@.len() <= nf,
            forall|k: int|
                0 <= k < flags@.len() ==> flags@[k].count == 0 && flags@[k].values@.len() == 0,
        decreases nf - flags@.len(),
    {
        flags.push(FlagSlot { count: 0, values: Vec::new() });
    }
    let np: usize = schema.positionals.len();
    let mut positionals: Vec<Vec<String>> = Vec::new();
    while positionals.len() < np
        invariant
            positionals@.len() <= np,
            forall|k: int| 0 <= k < positionals@.len() ==> positionals@[k]@.len() == 0,
        decreases np - positionals@.len(),
    {
        positionals.push(Vec::new());
    }
    let mut redacted: Vec<String> = Vec::new();
    proof {
        assert(acc_model(flags@, positionals@, redacted@) =~~= init_model(*schema));
        assert(argsv.subrange(0, argsv.len() as int) =~= argsv);
    }
    let mut help = false;
    let mut options_ended = false;
    let mut pos_index: usize = 0;
    let n: usize = args.len();
    let mut i: usize = 0;
    while i < n
        invariant
            n == args@.len(),
            i <= n,
            cmdv == views_of(cmd_name@),
            argsv == views_of(args@),
            flags@.len() == schema.flags@.len(),
            positionals@.len() == schema.positionals@.len(),
            pos_index <= positionals@.len(),
            spec_parse(*schema, cmdv, argsv) == spec_scan(
                *schema,
                cmdv,
                argsv.subrange(i as int, n as int),
                help,
                options_ended,
                pos_index as int,
                acc_model(flags@, positionals@, redacted@),
            ),
        decreases n - i,
    {
        let ghost rem = argsv.subrange(i as int, n as int);
        let ghost acc0 = acc_model(flags@, positionals@, redacted@);
        proof {
            assert(rem[0] == args@[i as int]@);
            assert(rem.subrange(1, rem.len() as int) =~= argsv.subrange(i + 1, n as int));
        }
        let tok: &String = &args[i];
        if !options_ended && contains_str(schema.help_triggers.as_slice(), tok.as_str()) {
            help = true;
            i = i + 1;
        } else if !options_ended && starts_with_char(tok.as_str(), '-') {
            if str_eq(tok.as_str(), "--") {
                options_ended = true;
                i = i + 1;
            } else if help {
                return Err(
                    EarlyExit {
                        output: String::from_str("Trailing arguments are not allowed after `help`."),
                        status: Err(()),
                    },
                );
            } else {
                match flag_lookup(&schema.flags, tok.as_str()) {
                    None => {
                        return Err(
                            EarlyExit {
                                output: unrecognized_argument(tok.as_str()),
                                status: Err(()),
                            },
                        );
                    },
                    Some(fi) => {
                        let is_switch = matches!(&schema.flags[fi].kind, HelpFieldKind::Switch);
                        if is_switch {
                            let c = flags[fi].count;
                            if c < u64::MAX {
                                flags[fi].count = c + 1;
                            }
                            let ghost old_red = redacted@;
                            redacted.push(tok.clone());
                            proof {
                                crate::strtools::lemma_views_push(old_red, args@[i as int]);
                                assert(acc_model(flags@, positionals@, redacted@)
                                    =~~= spec_switch_inc(acc0, fi as int, rem[0]));
                            }
                            i = i + 1;
                        } else {
                            if i + 1 == n {
                                return Err(
                                    EarlyExit {
                                        output: no_value_provided(tok.as_str()),
                                        status: Err(()),
                                    },
                                );
                            }
                            let value: &String = &args[i + 1];
                            proof {
                                assert(rem.subrange(1, rem.len() as int)[0] == args@[i + 1]@);
                            }
                            let repeating = matches!(
                                &schema.flags[fi].optionality,
                                crate::schema::Optionality::Repeating
                            );
                            let parser = flag_parser(&schema.flags[fi]);
                            proof {
                                assert(flag_slot_view(flags@[fi as int]) == acc0.flags[fi as int]);
                            }
                            match parse_option(
                                tok.as_str(),
                                value.as_str(),
                                &mut flags[fi],
                                repeating,
                                parser,
                            ) {
                                Ok(()) => {
                                    let ghost old_red = redacted@;
                                    redacted.push(tok.clone());
                                    proof {
                                        crate::strtools::lemma_views_push(
                                            old_red,
                                            args@[i as int],
                                        );
                                        assert(acc_model(flags@, positionals@, redacted@)
                                            =~~= spec_option_fill(
                                            acc0,
                                            fi as int,
                                            rem[0],
                                            args@[i + 1]@,
                                        ));
                                        assert(rem.subrange(1, rem.len() as int).subrange(
                                            1,
                                            rem.len() as int - 1,
                                        ) =~= argsv.subrange(i + 2, n as int));
                                    }
                                    i = i + 2;
                                },
                                Err(msg) => {
                                    return Err(EarlyExit { output: msg, status: Err(()) });
                                },
                            }
                        }
                    },
                }
            }
        } else {
            if !options_ended {
                match &schema.subcommand {
                    Some(sub) => {
                        match sub_lookup(sub, tok.as_str(), Ghost(*schema)) {
                            Some((dynamic, si)) => {
                                let e: &HelpSubCommandInfo = if dynamic {
                                    &sub.dynamic_commands[si]
                                } else {
                                    &sub.commands[si]
                                };
                                let ghost eidx: int = if dynamic {
                                    sub.commands@.len() + si as int
                                } else {
                                    si as int
                                };
                                proof {
                                    assert(*e == spec_sub_entries(*schema)[eidx]);
                                }
                                let child_cmd = crate::strtools::extend_path(
                                    cmd_name,
                                    &e.name,
                                );
                                proof {
                                    assert(views_of(child_cmd@) == cmdv.push(e.name@));
                                }
                                let mut child_args: Vec<String> = Vec::new();
                                if help {
                                    child_args.push(String::from_str("help"));
                                }
                                let ghost prefix = if help {
                                    seq!["help"@]
                                } else {
                                    Seq::<Seq<char>>::empty()
                                };
                                proof {
                                    assert(views_of(child_args@) =~= prefix + argsv.subrange(
                                        i + 1,
                                        i + 1,
                                    ));
                                }
                                let mut jj: usize = i + 1;
                                while jj < n
                                    invariant
                                        i + 1 <= jj <= n,
                                        n == args@.len(),
                                        argsv == views_of(args@),
                                        views_of(child_args@) =~= prefix + argsv.subrange(
                                            i + 1,
                                            jj as int,
                                        ),
                                    decreases n - jj,
                                {
                                    let ghost old_ca = child_args@;
                                    child_args.push(args[jj].clone());
                                    proof {
                                        crate::strtools::lemma_views_push(
                                            old_ca,
                                            args@[jj as int],
                                        );
                                        assert(argsv.subrange(i + 1, jj + 1) =~= argsv.subrange(
                                            i + 1,
                                            jj as int,
                                        ).push(argsv[jj as int]));
                                        assert(views_of(child_args@) =~= prefix + argsv.subrange(
                                            i + 1,
                                            jj + 1,
                                        ));
                                    }
                                    jj = jj + 1;
                                }
                                proof {
                                    assert(views_of(child_args@) =~= prefix + rem.subrange(
                                        1,
                                        rem.len() as int,
                                    ));
                                    assert(decreases_to!(*schema => schema.subcommand));
                                    assert(decreases_to!(schema.subcommand => schema.subcommand->0));
                                    if !dynamic {
                                        assert(decreases_to!(
                                            schema.subcommand->0 => schema.subcommand->0.commands));
                                        assert(decreases_to!(
                                            schema.subcommand->0.commands
                                                => schema.subcommand->0.commands@));
                                        assert(decreases_to!(
                                            schema.subcommand->0.commands@
                                                => schema.subcommand->0.commands@[si as int]));
                                        assert(decreases_to!(
                                            schema.subcommand->0.commands@[si as int]
                                                => schema.subcommand->0.commands@[si as int].info));
                                        assert(schema.subcommand->0.commands@[si as int] == *e);
                                    } else {
                                        assert(decreases_to!(
                                            schema.subcommand->0
                                                => schema.subcommand->0.dynamic_commands));
                                        assert(decreases_to!(
                                            schema.subcommand->0.dynamic_commands
                                                => schema.subcommand->0.dynamic_commands@));
                                        assert(decreases_to!(
                                            schema.subcommand->0.dynamic_commands@
                                                => schema.subcommand->0.dynamic_commands@[si as int]));
                                        assert(decreases_to!(
                                            schema.subcommand->0.dynamic_commands@[si as int]
                                                => schema.subcommand->0.dynamic_commands@[si as int].info));
                                        assert(schema.subcommand->0.dynamic_commands@[si as int]
                                            == *e);
                                    }
                                    assert(decreases_to!(*schema => e.info));
                                }
                                match parse_struct_args(
                                    child_cmd.as_slice(),
                                    child_args.as_slice(),
                                    &e.info,
                                ) {
                                    Ok(childp) => {
                                        let subres = Some(
                                            Box::new(
                                                ParsedSubCommand {
                                                    name: e.name.clone(),
                                                    args: childp,
                                                },
                                            ),
                                        );
                                        proof {
                                            assert(parsed_view(
                                                ParsedArgs {
                                                    flags: flags,
                                                    positionals: positionals,
                                                    redacted: redacted,
                                                    subcommand: subres,
                                                },
                                            ) =~~= spec_with_sub(
                                                acc0,
                                                e.name@,
                                                parsed_view(subres->0.args),
                                            ));
                                        }
                                        return finalize_args(
                                            schema,
                                            cmd_name,
                                            flags,
                                            positionals,
                                            redacted,
                                            subres,
                                            false,
                                        );
                                    },
                                    Err(ex) => {
                                        return Err(ex);
                                    },
                                }
                            },
                            None => {},
                        }
                    },
                    None => {},
                }
            }
            if pos_index < positionals.len() {
                let pname = schema.positionals[pos_index].name.clone();
                let pparser = schema.positionals[pos_index].parser;
                proof {
                    assert(acc0.positionals[pos_index as int] == views_of(
                        positionals@[pos_index as int]@,
                    ));
                }
                match parse_positional(
                    tok.as_str(),
                    &mut positionals[pos_index],
                    pname.as_str(),
                    pparser,
                ) {
                    Ok(()) => {
                        let ghost old_red = redacted@;
                        redacted.push(pname);
                        proof {
                            crate::strtools::lemma_views_push(
                                old_red,
                                schema.positionals@[pos_index as int].name,
                            );
                            assert(acc_model(flags@, positionals@, redacted@) =~~= spec_pos_fill(
                                acc0,
                                pos_index as int,
                                rem[0],
                                schema.positionals@[pos_index as int].name@,
                            ));
                        }
                        let is_greedy = matches!(
                            &schema.positionals[pos_index].optionality,
                            crate::schema::Optionality::Greedy
                        );
                        let is_repeating = matches!(
                            &schema.positionals[pos_index].optionality,
                            crate::schema::Optionality::Repeating
                        );
                        let stay = pos_index + 1 == positionals.len() && (is_repeating
                            || is_greedy);
                        if stay {
                            if is_greedy {
                                options_ended = true;
                            }
                        } else {
                            pos_index = pos_index + 1;
                        }
                        i = i + 1;
                    },
                    Err(msg) => {
                        return Err(EarlyExit { output: msg, status: Err(()) });
                    },
                }
            } else {
                return Err(EarlyExit { output: unrecognized_arg(tok.as_str()), status: Err(()) });
            }
        }
    }
    proof {
        assert(argsv.subrange(n as int, n as int) =~= Seq::<Seq<char>>::empty());
    }
    finalize_args(schema, cmd_name, flags, positionals, redacted, None, help)
}

} // verus!
