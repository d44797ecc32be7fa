//! The structured, machine-readable form of the help data: one JSON text per
//! command, nested recursively for subcommands, stated as a spec-level text
//! that the exec renderer is held to.

use vstd::prelude::*;
use vstd::string::StrSliceExecFns;
use vstd::string::StringExecFns;
use crate::help::spec_usage_string;
use crate::numbers::{fmt_i64, spec_i64_string};
use crate::schema::{
    ErrorCodeInfo, HelpFieldKind, HelpFlagInfo, HelpInfo, HelpPositionalInfo, HelpSubCommandInfo,
    Optionality,
};
use crate::strtools::{push_char, replace_all, seq_join, spec_replace, views_of};

verus! {

/// JSON string escaping: newlines and double quotes get a backslash.
pub open spec fn spec_escape_json(s: Seq<char>) -> Seq<char>
    decreases s.len(),
{
    if s.len() == 0 {
        Seq::empty()
    } else {
        (if s[0] == '\n' {
            seq!['\\', 'n']
        } else if s[0] == '"' {
            seq!['\\', '"']
        } else {
            seq![s[0]]
        }) + spec_escape_json(s.subrange(1, s.len() as int))
    }
}

/// The JSON word for an optionality.
pub open spec fn spec_opt_str(o: Optionality) -> Seq<char> {
    match o {
        Optionality::Required => "required"@,
        Optionality::Optional => "optional"@,
        Optionality::Repeating => "repeating"@,
        Optionality::Greedy => "greedy"@,
    }
}

/// One flag's JSON object.
pub open spec fn spec_flag_json(f: HelpFlagInfo) -> Seq<char> {
    "{\"short\": \""@ + (match f.short {
        Some(c) => seq![c],
        None => Seq::<char>::empty(),
    }) + "\", \"long\": \""@ + f.long@ + "\", \"description\": \""@ + spec_escape_json(
        f.description@,
    ) + "\", \"arg_name\": \""@ + (match f.kind {
        HelpFieldKind::Switch => Seq::<char>::empty(),
        HelpFieldKind::Option { arg_name, parser } => arg_name@,
    }) + "\", \"optionality\": \""@ + spec_opt_str(f.optionality) + "\"}"@
}

/// The non-hidden flags' JSON objects, joined by `,\n`; `first` says whether
/// nothing stands before them yet.
pub open spec fn spec_flags_json(fs: Seq<HelpFlagInfo>, first: bool) -> Seq<char>
    decreases fs.len(),
{
    if fs.len() == 0 {
        Seq::empty()
    } else if fs[0].hidden {
        spec_flags_json(fs.subrange(1, fs.len() as int), first)
    } else {
        (if !first {
            ",\n"@
        } else {
            Seq::empty()
        }) + spec_flag_json(fs[0]) + spec_flags_json(fs.subrange(1, fs.len() as int), false)
    }
}

/// Whether any flag is visible in the structured output.
pub open spec fn spec_any_visible_flag(fs: Seq<HelpFlagInfo>) -> bool {
    exists|i: int| 0 <= i < fs.len() && !fs[i].hidden
}

/// One positional's JSON object.
pub open spec fn spec_pos_json(p: HelpPositionalInfo) -> Seq<char> {
    "{\"name\": \""@ + p.name@ + "\", \"description\": \""@ + spec_escape_json(p.description@)
        + "\", \"optionality\": \""@ + spec_opt_str(p.optionality) + "\"}"@
}

/// The non-hidden positionals' JSON objects, joined by `,\n`.
pub open spec fn spec_positionals_json(ps: Seq<HelpPositionalInfo>, first: bool) -> Seq<char>
    decreases ps.len(),
{
    if ps.len() == 0 {
        Seq::empty()
    } else if ps[0].hidden {
        spec_positionals_json(ps.subrange(1, ps.len() as int), first)
    } else {
        (if !first {
            ",\n"@
        } else {
            Seq::empty()
        }) + spec_pos_json(ps[0]) + spec_positionals_json(ps.subrange(1, ps.len() as int), false)
    }
}

/// The documented error codes' JSON objects, joined by `,\n`.
pub open spec fn spec_error_codes_json(ecs: Seq<ErrorCodeInfo>, first: bool) -> Seq<char>
    decreases ecs.len(),
{
    if ecs.len() == 0 {
        Seq::empty()
    } else {
        (if !first {
            ",\n"@
        } else {
            Seq::empty()
        }) + "{\"name\": \""@ + spec_i64_string(ecs[0].code as int) + "\", \"description\": \""@
            + spec_escape_json(ecs[0].description@) + "\"}"@ + spec_error_codes_json(
            ecs.subrange(1, ecs.len() as int),
            false,
        )
    }
}

/// The nested commands' JSON texts, joined by `,\n`, each rendered at the
/// parent path extended by its canonical name.
pub open spec fn spec_subs_json(cs: Seq<HelpSubCommandInfo>, cmd: Seq<Seq<char>>, first: bool) -> Seq<
    char,
>
    decreases cs,
{
    if cs.len() == 0 {
        Seq::empty()
    } else {
        let nested = {
            proof {
                assert(decreases_to!(cs => cs[0]));
                assert(decreases_to!(cs[0] => cs[0].info));
            }
            spec_help_json(cs[0].info, cmd.push(cs[0].name@))
        };
        (if !first {
            ",\n"@
        } else {
            Seq::empty()
        }) + nested + {
            proof {
                vstd::seq::axiom_seq_subrange_decreases(cs, 1, cs.len() as int);
            }
            spec_subs_json(cs.subrange(1, cs.len() as int), cmd, false)
        }
    }
}

/// The structured help data of a schema at a command path, as one JSON text:
/// name, usage, description, flags with the implicit help entry, positionals,
/// examples, notes, error codes, and the nested subcommands in full.
/// `{command_name}` placeholders are replaced by the joined path.  Hidden
/// flags and positionals are left out, as they are from the help text.
pub open spec fn spec_help_json(schema: HelpInfo, cmd: Seq<Seq<char>>) -> Seq<char>
    decreases schema,
{
    let cmdname = seq_join(cmd, " "@);
    let last = if cmd.len() > 0 {
        cmd.last()
    } else {
        "<unknown>"@
    };
    "{\n\"name\": \""@ + last + "\""@ + ",\n\"usage\": \""@ + spec_usage_string(schema, cmdname)
        + "\""@ + ",\n\"description\": \""@ + spec_escape_json(
        spec_replace(schema.description@, "{command_name}"@, cmdname),
    ) + "\""@ + ",\n\"flags\": ["@ + spec_flags_json(schema.flags@, true) + (
    if spec_any_visible_flag(schema.flags@) {
        ",\n"@
    } else {
        Seq::empty()
    })
        + "{\"short\": \"\", \"long\": \"--help\", \"description\": \"display usage information\", \"arg_name\": \"\", \"optionality\": \"optional\"}]"@
        + ",\n\"positional\": ["@ + spec_positionals_json(schema.positionals@, true) + "]"@
        + ",\n\"examples\": \""@ + spec_escape_json(
        spec_replace(seq_join(views_of(schema.examples@), "\n"@), "{command_name}"@, cmdname),
    ) + "\""@ + ",\n\"notes\": \""@ + spec_escape_json(
        spec_replace(seq_join(views_of(schema.notes@), "\n"@), "{command_name}"@, cmdname),
    ) + "\""@ + ",\n\"error_codes\": ["@ + spec_error_codes_json(schema.error_codes@, true) + "]"@
        + (if schema.subcommand is Some {
        let stat = {
            proof {
                assert(decreases_to!(schema => schema.subcommand));
                assert(decreases_to!(schema.subcommand => schema.subcommand->0));
                assert(decreases_to!(schema.subcommand->0 => schema.subcommand->0.commands));
                assert(decreases_to!(
                    schema.subcommand->0.commands => schema.subcommand->0.commands@));
            }
            spec_subs_json(schema.subcommand->0.commands@, cmd, true)
        };
        let dynamic = {
            proof {
                assert(decreases_to!(schema => schema.subcommand));
                assert(decreases_to!(schema.subcommand => schema.subcommand->0));
                assert(decreases_to!(
                    schema.subcommand->0 => schema.subcommand->0.dynamic_commands));
                assert(decreases_to!(
                    schema.subcommand->0.dynamic_commands
                        => schema.subcommand->0.dynamic_commands@));
            }
            spec_subs_json(
                schema.subcommand->0.dynamic_commands@,
                cmd,
                schema.subcommand->0.commands@.len() == 0,
            )
        };
        ",\n\"subcommands\": ["@ + stat + dynamic + "]"@
    } else {
        ",\n\"subcommands\": []"@
    }) + "\n}\n"@
}

/// Escape newlines and double quotes for a JSON string literal.
pub fn escape_json(s: &str) -> (r: String)
    ensures
        r@ == spec_escape_json(s@),
{
    let n: usize = s.unicode_len();
    let mut out = String::new();
    proof {
        assert(s@.subrange(0, n as int) =~= s@);
    }
    let mut i: usize = 0;
    while i < n
        invariant
            n == s@.len(),
            i <= n,
            spec_escape_json(s@) == out@ + spec_escape_json(s@.subrange(i as int, n as int)),
        decreases n - i,
    {
        let ghost rem = s@.subrange(i as int, n as int);
        proof {
            assert(rem[0] == s@[i as int]);
            assert(rem.subrange(1, rem.len() as int) =~= s@.subrange(i + 1, n as int));
        }
        let c = s.get_char(i);
        if c == '\n' {
            out.append("\\n");
            proof {
                reveal_strlit("\\n");
                assert("\\n"@ =~= seq!['\\', 'n']);
            }
        } else if c == '"' {
            out.append("\\\"");
            proof {
                reveal_strlit("\\\"");
                assert("\\\""@ =~= seq!['\\', '"']);
            }
        } else {
            push_char(&mut out, c);
            proof {
                assert(out@ =~= out@.subrange(0, out@.len() - 1) + seq![c]);
            }
        }
        i = i + 1;
    }
    proof {
        assert(s@.subrange(n as int, n as int) =~= Seq::<char>::empty());
        assert(out@ =~= out@ + Seq::<char>::empty());
    }
    out
}

/// The JSON word for an optionality.
fn opt_str(o: Optionality) -> (r: &'static str)
    ensures
        r@ == spec_opt_str(o),
{
    match o {
        Optionality::Required => "required",
        Optionality::Optional => "optional",
        Optionality::Repeating => "repeating",
        Optionality::Greedy => "greedy",
    }
}

/// Append one flag's JSON object.
#[verifier::rlimit(50)]
fn flag_json_entry(out: &mut String, f: &HelpFlagInfo)
    ensures
        final(out)@ == old(out)@ + spec_flag_json(*f),
{
    out.append("{\"short\": \"");
    match f.short {
        Some(c) => {
            push_char(out, c);
            proof {
                assert(out@ =~= out@.subrange(0, out@.len() - 1) + seq![c]);
            }
        },
        None => {},
    }
    out.append("\", \"long\": \"");
    out.append(f.long.as_str());
    out.append("\", \"description\": \"");
    let desc = escape_json(f.description.as_str());
    out.append(desc.as_str());
    out.append("\", \"arg_name\": \"");
    match &f.kind {
        HelpFieldKind::Switch => {},
        HelpFieldKind::Option { arg_name, parser } => {
            out.append(arg_name.as_str());
        },
    }
    out.append("\", \"optionality\": \"");
    out.append(opt_str(f.optionality));
    out.append("\"}");
}

/// Append the non-hidden flags' JSON objects.
fn flags_json(out: &mut String, fs: &Vec<HelpFlagInfo>, first0: bool)
    ensures
        final(out)@ == old(out)@ + spec_flags_json(fs@, first0),
{
    let n: usize = fs.len();
    proof {
        assert(fs@.subrange(0, n as int) =~= fs@);
    }
    let mut first = first0;
    let mut i: usize = 0;
    while i < n
        invariant
            n == fs@.len(),
            i <= n,
            old(out)@ + spec_flags_json(fs@, first0) == out@ + spec_flags_json(
                fs@.subrange(i as int, n as int),
                first,
            ),
        decreases n - i,
    {
        let ghost rem = fs@.subrange(i as int, n as int);
        proof {
            assert(rem[0] == fs@[i as int]);
            assert(rem.subrange(1, rem.len() as int) =~= fs@.subrange(i + 1, n as int));
        }
        if !fs[i].hidden {
            if !first {
                out.append(",\n");
            }
            flag_json_entry(out, &fs[i]);
            first = false;
        }
        i = i + 1;
    }
    proof {
        assert(fs@.subrange(n as int, n as int) =~= Seq::<HelpFlagInfo>::empty());
        assert(out@ =~= out@ + Seq::<char>::empty());
    }
}

/// Append one positional's JSON object.
#[verifier::rlimit(50)]
fn pos_json_entry(out: &mut String, p: &HelpPositionalInfo)
    ensures
        final(out)@ == old(out)@ + spec_pos_json(*p),
{
    out.append("{\"name\": \"");
    out.append(p.name.as_str());
    out.append("\", \"description\": \"");
    let desc = escape_json(p.description.as_str());
    out.append(desc.as_str());
    out.append("\", \"optionality\": \"");
    out.append(opt_str(p.optionality));
    out.append("\"}");
}

/// Append the non-hidden positionals' JSON objects.
fn positionals_json(out: &mut String, ps: &Vec<HelpPositionalInfo>)
    ensures
        final(out)@ == old(out)@ + spec_positionals_json(ps@, true),
{
    let n: usize = ps.len();
    proof {
        assert(ps@.subrange(0, n as int) =~= ps@);
    }
    let mut first = true;
    let mut i: usize = 0;
    while i < n
        invariant
            n == ps@.len(),
            i <= n,
            old(out)@ + spec_positionals_json(ps@, true) == out@ + spec_positionals_json(
                ps@.subrange(i as int, n as int),
                first,
            ),
        decreases n - i,
    {
        let ghost rem = ps@.subrange(i as int, n as int);
        proof {
            assert(rem[0] == ps@[i as int]);
            assert(rem.subrange(1, rem.len() as int) =~= ps@.subrange(i + 1, n as int));
        }
        if !ps[i].hidden {
            if !first {
                out.append(",\n");
            }
            pos_json_entry(out, &ps[i]);
            first = false;
        }
        i = i + 1;
    }
    proof {
        assert(ps@.subrange(n as int, n as int) =~= Seq::<HelpPositionalInfo>::empty());
        assert(out@ =~= out@ + Seq::<char>::empty());
    }
}

/// Append one documented error code's JSON object.
fn error_code_json_entry(out: &mut String, e: &ErrorCodeInfo)
    ensures
        final(out)@ == old(out)@ + "{\"name\": \""@ + spec_i64_string(e.code as int)
            + "\", \"description\": \""@ + spec_escape_json(e.description@) + "\"}"@,
{
    out.append("{\"name\": \"");
    let code = fmt_i64(e.code);
    out.append(code.as_str());
    out.append("\", \"description\": \"");
    let desc = escape_json(e.description.as_str());
    out.append(desc.as_str());
    out.append("\"}");
}

/// Append the documented error codes' JSON objects.
fn error_codes_json(out: &mut String, ecs: &Vec<ErrorCodeInfo>)
    ensures
        final(out)@ == old(out)@ + spec_error_codes_json(ecs@, true),
{
    let n: usize = ecs.len();
    proof {
        assert(ecs@.subrange(0, n as int) =~= ecs@);
    }
    let mut first = true;
    let mut i: usize = 0;
    while i < n
        invariant
            n == ecs@.len(),
            i <= n,
            old(out)@ + spec_error_codes_json(ecs@, true) == out@ + spec_error_codes_json(
                ecs@.subrange(i as int, n as int),
                first,
            ),
        decreases n - i,
    {
        let ghost rem = ecs@.subrange(i as int, n as int);
        proof {
            assert(rem[0] == ecs@[i as int]);
            assert(rem.subrange(1, rem.len() as int) =~= ecs@.subrange(i + 1, n as int));
        }
        if !first {
            out.append(",\n");
        }
        error_code_json_entry(out, &ecs[i]);
        first = false;
        i = i + 1;
    }
    proof {
        assert(ecs@.subrange(n as int, n as int) =~= Seq::<ErrorCodeInfo>::empty());
        assert(out@ =~= out@ + Seq::<char>::empty());
    }
}

/// Whether any flag is visible in the structured output.
fn any_visible_flag(fs: &Vec<HelpFlagInfo>) -> (r: bool)
    ensures
        r == spec_any_visible_flag(fs@),
{
    let n: usize = fs.len();
    let mut i: usize = 0;
    while i < n
        invariant
            n == fs@.len(),
            i <= n,
            forall|k: int| 0 <= k < i ==> fs@[k].hidden,
        decreases n - i,
    {
        if !fs[i].hidden {
            return true;
        }
        i = i + 1;
    }
    false
}

impl HelpInfo {
    /// The structured help data as one JSON text, as [`spec_help_json`]
    /// describes, rendered at the given command path.
    #[verifier::rlimit(80)]
    pub fn help_json_from_args(&self, command_name_arr: &[String]) -> (r: String)
        ensures
            r@ == spec_help_json(*self, views_of(command_name_arr@)),
        decreases *self, 1int,
    {
        let ghost cmdv = views_of(command_name_arr@);
        proof {
            reveal_strlit("{command_name}");
        }
        let cmdname = crate::strtools::join_strings(command_name_arr, " ");
        let mut out = String::from_str("{\n\"name\": \"");
        if command_name_arr.len() > 0 {
            out.append(command_name_arr[command_name_arr.len() - 1].as_str());
            proof {
                assert(cmdv.last() == command_name_arr@[command_name_arr@.len() - 1]@);
            }
        } else {
            out.append("<unknown>");
        }
        out.append("\"");
        out.append(",\n\"usage\": \"");
        let usage = self.usage_string(cmdname.as_str());
        out.append(usage.as_str());
        out.append("\"");
        out.append(",\n\"description\": \"");
        let rdesc = replace_all(self.description.as_str(), "{command_name}", cmdname.as_str());
        let edesc = escape_json(rdesc.as_str());
        out.append(edesc.as_str());
        out.append("\"");
        out.append(",\n\"flags\": [");
        flags_json(&mut out, &self.flags, true);
        if any_visible_flag(&self.flags) {
            out.append(",\n");
        }
        out.append(
            "{\"short\": \"\", \"long\": \"--help\", \"description\": \"display usage information\", \"arg_name\": \"\", \"optionality\": \"optional\"}]",
        );
        out.append(",\n\"positional\": [");
        positionals_json(&mut out, &self.positionals);
        out.append("]");
        out.append(",\n\"examples\": \"");
        let exs = crate::strtools::join_strings(self.examples.as_slice(), "\n");
        let rexs = replace_all(exs.as_str(), "{command_name}", cmdname.as_str());
        let eexs = escape_json(rexs.as_str());
        out.append(eexs.as_str());
        out.append("\"");
        out.append(",\n\"notes\": \"");
        let nts = crate::strtools::join_strings(self.notes.as_slice(), "\n");
        let rnts = replace_all(nts.as_str(), "{command_name}", cmdname.as_str());
        let ents = escape_json(rnts.as_str());
        out.append(ents.as_str());
        out.append("\"");
        out.append(",\n\"error_codes\": [");
        error_codes_json(&mut out, &self.error_codes);
        out.append("]");
        match &self.subcommand {
            Some(sub) => {
                out.append(",\n\"subcommands\": [");
                let first_dyn = sub.commands.len() == 0;
                subs_json(&mut out, &sub.commands, command_name_arr, true, Ghost(*self));
                subs_json(&mut out, &sub.dynamic_commands, command_name_arr, first_dyn, Ghost(*self));
                out.append("]");
            },
            None => {
                out.append(",\n\"subcommands\": []");
            },
        }
        out.append("\n}\n");
        proof {
            reveal_strlit("{command_name}");
            assert(out@ =~= spec_help_json(*self, cmdv));
        }
        out
    }
}

/// Append the nested commands' JSON texts.
#[verifier::rlimit(60)]
fn subs_json(
    out: &mut String,
    cs: &Vec<HelpSubCommandInfo>,
    command_name_arr: &[String],
    first0: bool,
    Ghost(parent): Ghost<HelpInfo>,
)
    requires
        parent.subcommand is Some && (cs@ == parent.subcommand->0.commands@ || cs@
            == parent.subcommand->0.dynamic_commands@),
    ensures
        final(out)@ == old(out)@ + spec_subs_json(cs@, views_of(command_name_arr@), first0),
    decreases parent, 0int,
{
    let n: usize = cs.len();
    proof {
        assert(cs@.subrange(0, n as int) =~= cs@);
    }
    let mut first = first0;
    let mut i: usize = 0;
    while i < n
        invariant
            n == cs@.len(),
            i <= n,
            parent.subcommand is Some && (cs@ == parent.subcommand->0.commands@ || cs@
                == parent.subcommand->0.dynamic_commands@),
            old(out)@ + spec_subs_json(cs@, views_of(command_name_arr@), first0) == out@
                + spec_subs_json(cs@.subrange(i as int, n as int), views_of(command_name_arr@), first),
        decreases n - i,
    {
        let ghost rem = cs@.subrange(i as int, n as int);
        proof {
            assert(rem[0] == cs@[i as int]);
            assert(rem.subrange(1, rem.len() as int) =~= cs@.subrange(i + 1, n as int));
        }
        if !first {
            out.append(",\n");
        }
        let child_cmd = crate::strtools::extend_path(command_name_arr, &cs[i].name);
        proof {
            assert(decreases_to!(parent => parent.subcommand));
            assert(decreases_to!(parent.subcommand => parent.subcommand->0));
            if cs@ == parent.subcommand->0.commands@ {
                assert(decreases_to!(parent.subcommand->0 => parent.subcommand->0.commands));
                assert(decreases_to!(
                    parent.subcommand->0.commands => parent.subcommand->0.commands@));
                assert(decreases_to!(
                    parent.subcommand->0.commands@ => parent.subcommand->0.commands@[i as int]));
                assert(decreases_to!(
                    parent.subcommand->0.commands@[i as int]
                        => parent.subcommand->0.commands@[i as int].info));
                assert(cs@[i as int] == parent.subcommand->0.commands@[i as int]);
            } else {
                assert(decreases_to!(
                    parent.subcommand->0 => parent.subcommand->0.dynamic_commands));
                assert(decreases_to!(
                    parent.subcommand->0.dynamic_commands
                        => parent.subcommand->0.dynamic_commands@));
                assert(decreases_to!(
                    parent.subcommand->0.dynamic_commands@
                        => parent.subcommand->0.dynamic_commands@[i as int]));
                assert(decreases_to!(
                    parent.subcommand->0.dynamic_commands@[i as int]
                        => parent.subcommand->0.dynamic_commands@[i as int].info));
                assert(cs@[i as int] == parent.subcommand->0.dynamic_commands@[i as int]);
            }
            assert(decreases_to!(parent => cs@[i as int].info));
        }
        let nested = cs[i].info.help_json_from_args(child_cmd.as_slice());
        out.append(nested.as_str());
        first = false;
        i = i + 1;
    }
    proof {
        assert(cs@.subrange(n as int, n as int) =~= Seq::<HelpSubCommandInfo>::empty());
        assert(out@ =~= out@ + Seq::<char>::empty());
    }
}

} // verus!
