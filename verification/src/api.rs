//! The outward-facing entry points around the core machine: redaction, the
//! subcommand dispatcher for caller-defined command sets, the program-name
//! helper, and the traits that caller types implement.

use vstd::prelude::*;
use vstd::string::StringExecFns;
use crate::model::{spec_parse, ExitModel, ParseModel};
use crate::parser::{parse_struct_args, parsed_view, EarlyExit, ParsedArgs};
use crate::schema::{CommandInfo, HelpInfo, HelpSubCommandInfo};
use crate::strtools::{lemma_split_nonempty, spec_split, split_char, str_eq, views_of};

verus! {

/// The redaction trace of a whole parse: each level's names in encounter
/// order, with each dispatched subcommand's canonical name before its own
/// trace.
pub open spec fn spec_redactions(m: ParseModel) -> Seq<Seq<char>>
    decreases m,
{
    m.redacted + (if m.subcommand is Some {
        {
            proof {
                assert(decreases_to!(m => m.subcommand));
                assert(decreases_to!(m.subcommand => m.subcommand->0));
            }
            seq![m.subcommand->0.name] + spec_redactions(m.subcommand->0.args)
        }
    } else {
        Seq::empty()
    })
}

/// Append the redaction trace of a parse result.
fn collect_redactions(p: &ParsedArgs, out: &mut Vec<String>)
    ensures
        views_of(final(out)@) == views_of(old(out)@) + spec_redactions(parsed_view(*p)),
    decreases *p,
{
    let n: usize = p.redacted.len();
    let mut i: usize = 0;
    while i < n
        invariant
            n == p.redacted@.len(),
            i <= n,
            views_of(out@) =~= views_of(old(out)@) + views_of(p.redacted@.subrange(0, i as int)),
        decreases n - i,
    {
        let ghost old_out = out@;
        out.push(p.redacted[i].clone());
        proof {
            crate::strtools::lemma_views_push(old_out, p.redacted@[i as int]);
            assert(views_of(p.redacted@.subrange(0, i + 1)) =~= views_of(
                p.redacted@.subrange(0, i as int),
            ).push(p.redacted@[i as int]@));
        }
        i = i + 1;
    }
    proof {
        assert(p.redacted@.subrange(0, n as int) =~= p.redacted@);
    }
    match &p.subcommand {
        None => {
            proof {
                assert(views_of(out@) =~= views_of(old(out)@) + spec_redactions(parsed_view(*p)));
            }
        },
        Some(sub) => {
            let ghost old_out = out@;
            out.push(sub.name.clone());
            proof {
                crate::strtools::lemma_views_push(old_out, sub.name);
                assert(decreases_to!(*p => p.subcommand));
                assert(decreases_to!(p.subcommand => p.subcommand->0));
                assert(decreases_to!(p.subcommand->0 => p.subcommand->0.args));
            }
            collect_redactions(&sub.args, out);
            proof {
                assert(parsed_view(*p).subcommand->0.args == parsed_view(p.subcommand->0.args));
                assert(views_of(out@) =~= views_of(old(out)@) + spec_redactions(parsed_view(*p)));
            }
        },
    }
}

/// Traverse the token stream exactly as [`parse_struct_args`] does, but
/// produce only the argument names, in the order they were supplied: flag
/// tokens as typed and positional names, never a user-supplied value.  The
/// list starts with the command's own name; help and error exits are those
/// of the primary parse.
pub fn redact_arg_values(cmd_name: &[String], args: &[String], schema: &HelpInfo) -> (r: Result<
    Vec<String>,
    EarlyExit,
>)
    ensures
        cmd_name@.len() == 0 ==> r is Err && r->Err_0@ == (ExitModel {
            output: "no command name"@,
            ok: false,
        }),
        cmd_name@.len() > 0 ==> ({
            let spec = spec_parse(*schema, views_of(cmd_name@), views_of(args@));
            match r {
                Ok(v) => spec is Ok && views_of(v@) == seq![
                    views_of(cmd_name@).last(),
                ] + spec_redactions(spec->Ok_0),
                Err(e) => spec == Err::<ParseModel, ExitModel>(e@),
            }
        }),
{
    if cmd_name.len() == 0 {
        return Err(EarlyExit { output: String::from_str("no command name"), status: Err(()) });
    }
    match parse_struct_args(cmd_name, args, schema) {
        Err(e) => Err(e),
        Ok(p) => {
            let mut out: Vec<String> = Vec::new();
            out.push(cmd_name[cmd_name.len() - 1].clone());
            proof {
                assert(views_of(out@) =~= seq![views_of(cmd_name@).last()]);
            }
            collect_redactions(&p, &mut out);
            Ok(out)
        },
    }
}

/// The index of the first command whose canonical name is `name`.
pub open spec fn spec_name_lookup(cs: Seq<HelpSubCommandInfo>, name: Seq<char>) -> Option<int>
    decreases cs.len(),
{
    if cs.len() == 0 {
        None
    } else if cs[0].name@ == name {
        Some(0)
    } else {
        match spec_name_lookup(cs.subrange(1, cs.len() as int), name) {
            None => None,
            Some(j) => Some(j + 1),
        }
    }
}

/// What a name lookup result means.
pub proof fn lemma_name_lookup_props(cs: Seq<HelpSubCommandInfo>, name: Seq<char>)
    ensures
        match spec_name_lookup(cs, name) {
            Some(j) => 0 <= j < cs.len() && cs[j].name@ == name && (forall|k: int|
                0 <= k < j ==> cs[k].name@ != name),
            None => forall|k: int| 0 <= k < cs.len() ==> cs[k].name@ != name,
        },
    decreases cs.len(),
{
    if cs.len() > 0 && cs[0].name@ != name {
        let tail = cs.subrange(1, cs.len() as int);
        lemma_name_lookup_props(tail, name);
        assert(forall|k: int| 0 <= k < tail.len() ==> tail[k] == cs[k + 1]);
        match spec_name_lookup(tail, name) {
            None => {
                assert forall|k: int| 0 <= k < cs.len() implies cs[k].name@ != name by {
                    if k >= 1 {
                        assert(tail[k - 1].name@ != name);
                    }
                }
            },
            Some(j) => {
                assert(spec_name_lookup(cs, name) == Some(j + 1));
                assert forall|k: int| 0 <= k < j + 1 implies cs[k].name@ != name by {
                    if k >= 1 {
                        assert(tail[k - 1].name@ != name);
                    }
                }
            },
        }
    }
}

/// Dispatch into a caller-defined set of subcommand schemas: the last
/// element of the command path names the subcommand to parse.  An empty
/// path, or a name matching no entry, is refused without parsing.
pub fn dispatch_subcommand(commands: &Vec<HelpSubCommandInfo>, command_name: &[String], args: &[String]) -> (r:
    Result<(usize, ParsedArgs), EarlyExit>)
    ensures
        command_name@.len() == 0 ==> r is Err && r->Err_0@ == (ExitModel {
            output: "no subcommand name"@,
            ok: false,
        }),
        command_name@.len() > 0 && spec_name_lookup(
            commands@,
            views_of(command_name@).last(),
        ) is None ==> r is Err && r->Err_0@ == (ExitModel {
            output: "no subcommand matched"@,
            ok: false,
        }),
        command_name@.len() > 0 && spec_name_lookup(
            commands@,
            views_of(command_name@).last(),
        ) is Some ==> ({
            let i = spec_name_lookup(commands@, views_of(command_name@).last())->0;
            let spec = spec_parse(commands@[i].info, views_of(command_name@), views_of(args@));
            match r {
                Ok((idx, p)) => idx == i && spec == Ok::<ParseModel, ExitModel>(parsed_view(p)),
                Err(e) => spec == Err::<ParseModel, ExitModel>(e@),
            }
        }),
{
    if command_name.len() == 0 {
        return Err(EarlyExit { output: String::from_str("no subcommand name"), status: Err(()) });
    }
    let last = &command_name[command_name.len() - 1];
    proof {
        assert(last@ == views_of(command_name@).last());
    }
    let n: usize = commands.len();
    let mut i: usize = 0;
    while i < n
        invariant
            n == commands@.len(),
            i <= n,
            command_name@.len() > 0,
            last@ == views_of(command_name@).last(),
            forall|k: int| 0 <= k < i ==> commands@[k].name@ != last@,
        decreases n - i,
    {
        if str_eq(commands[i].name.as_str(), last.as_str()) {
            proof {
                lemma_name_lookup_props(commands@, last@);
                if spec_name_lookup(commands@, last@) is None {
                    assert(commands@[i as int].name@ != last@);
                } else {
                    let j = spec_name_lookup(commands@, last@)->0;
                    if j < i {
                        assert(commands@[j].name@ != last@);
                    }
                    if i < j {
                        assert(commands@[i as int].name@ != last@);
                    }
                }
            }
            match parse_struct_args(command_name, args, &commands[i].info) {
                Ok(p) => {
                    return Ok((i, p));
                },
                Err(e) => {
                    return Err(e);
                },
            }
        }
        i = i + 1;
    }
    proof {
        lemma_name_lookup_props(commands@, last@);
        if spec_name_lookup(commands@, last@) is Some {
            let j = spec_name_lookup(commands@, last@)->0;
            assert(commands@[j].name@ != last@);
        }
    }
    Err(EarlyExit { output: String::from_str("no subcommand matched"), status: Err(()) })
}

/// The file-name component of a path: what follows the last `/`, unless that
/// is empty or `..`, in which case the given default stands in.
pub open spec fn spec_cmd(default: Seq<char>, path: Seq<char>) -> Seq<char> {
    let tail = spec_split(path, '/').last();
    if tail.len() > 0 && tail != ".."@ {
        tail
    } else {
        default
    }
}

/// Extract the displayed command name from an executable path.
pub fn cmd(default: &str, path: &str) -> (r: String)
    ensures
        r@ == spec_cmd(default@, path@),
{
    let parts = split_char(path, '/');
    proof {
        lemma_split_nonempty(path@, '/');
        assert(views_of(parts@).last() == parts@.last()@);
    }
    let tail = &parts[parts.len() - 1];
    if !tail.as_str().is_empty() && !str_eq(tail.as_str(), "..") {
        String::from_str(tail.as_str())
    } else {
        proof {
            if tail@.len() > 0 {
                assert(tail@ == "..."@.subrange(0, 0) + tail@);
            }
        }
        String::from_str(default)
    }
}

/// Types which can be constructed from a set of command-line arguments.
///
/// `command_name` is the command path for the current invocation, extended by
/// one canonical subcommand name per nesting level; `args` is the remaining
/// token list.
pub trait FromArgs: Sized {
    /// Construct the type from an input set of arguments.
    fn from_args(command_name: &[String], args: &[String]) -> Result<Self, EarlyExit>;

    /// The argument names only — flags and positional names, no user-supplied
    /// values — for use in anonymized usage statistics.
    fn redact_arg_values(command_name: &[String], args: &[String]) -> Result<Vec<String>, EarlyExit>;
}

/// A top-level `FromArgs` implementation that is not a subcommand.
pub trait TopLevelCommand: FromArgs {

}

/// A `FromArgs` implementation that represents a single subcommand.
pub trait SubCommand: FromArgs {
    /// The name and description of the subcommand.
    fn command() -> CommandInfo;
}

/// A `FromArgs` implementation that can parse into one or more subcommands.
pub trait SubCommands: FromArgs {
    /// The statically known commands.
    fn commands() -> Vec<CommandInfo>;

    /// The commands discovered at run time.
    fn dynamic_commands() -> Vec<CommandInfo>;
}

/// A provider of subcommands not known until run time.
pub trait DynamicSubCommand: Sized {
    /// The supported commands.
    fn commands() -> Vec<CommandInfo>;

    /// Perform the function of [`FromArgs::redact_arg_values`] for this
    /// dynamic command, or `None` when the command path is not recognized.
    fn try_redact_arg_values(command_name: &[String], args: &[String]) -> Option<
        Result<Vec<String>, EarlyExit>,
    >;

    /// Perform the function of [`FromArgs::from_args`] for this dynamic
    /// command, or `None` when the command path is not recognized.
    fn try_from_args(command_name: &[String], args: &[String]) -> Option<
        Result<Self, EarlyExit>,
    >;
}

/// Exposes the command-line help in the structured JSON form.
pub trait Help: FromArgs {
    /// The machine-readable help text for the given command path.
    fn help_json_from_args(command_name: &[String]) -> Result<String, EarlyExit>;
}

} // verus!
