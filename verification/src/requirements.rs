//! The requirement checker: after a scan, every required argument that was
//! never filled is reported in one consolidated message.

use vstd::prelude::*;
use vstd::string::StringExecFns;
use crate::strtools::{concat_map, views_of};

verus! {

/// Each name on its own indented line.
pub open spec fn spec_name_list(names: Seq<Seq<char>>) -> Seq<char> {
    concat_map(names, |n: Seq<char>| "\n    "@ + n)
}

/// The consolidated deficiency report: missing positionals, then missing
/// options, then the subcommand demand, each section separated from the
/// previous one by a newline, and a final newline.
pub open spec fn spec_missing_message(
    positionals: Seq<Seq<char>>,
    options: Seq<Seq<char>>,
    subcommands: Option<Seq<Seq<char>>>,
) -> Seq<char> {
    (if positionals.len() > 0 {
        "Required positional arguments not provided:"@ + spec_name_list(positionals)
    } else {
        Seq::empty()
    }) + (if options.len() > 0 {
        (if positionals.len() > 0 {
            "\n"@
        } else {
            Seq::empty()
        }) + "Required options not provided:"@ + spec_name_list(options)
    } else {
        Seq::empty()
    }) + (match subcommands {
        None => Seq::<char>::empty(),
        Some(cmds) => (if positionals.len() > 0 || options.len() > 0 {
            "\n"@
        } else {
            Seq::empty()
        }) + "One of the following subcommands must be present:\n    help"@ + spec_name_list(
            cmds,
        ),
    }) + "\n"@
}

/// Whether nothing at all is missing.
pub open spec fn spec_nothing_missing(
    positionals: Seq<Seq<char>>,
    options: Seq<Seq<char>>,
    subcommands: Option<Seq<Seq<char>>>,
) -> bool {
    positionals.len() == 0 && options.len() == 0 && subcommands is None
}

/// The subcommand-name views of an optional name list.
pub open spec fn spec_sub_names(s: Option<Vec<String>>) -> Option<Seq<Seq<char>>> {
    if s is Some {
        Some(views_of(s->0@))
    } else {
        None
    }
}

/// An error string builder collecting missing required options, positional
/// arguments and subcommands.
pub struct MissingRequirements {
    /// The long names of the missing required options, in declaration order.
    pub options: Vec<String>,
    /// The names of all accepted subcommands, when one had to be present.
    pub subcommands: Option<Vec<String>>,
    /// The names of the missing required positionals, in declaration order.
    pub positional_args: Vec<String>,
}

impl MissingRequirements {
    /// A report with nothing missing yet.
    pub fn new() -> (r: MissingRequirements)
        ensures
            views_of(r.options@) == Seq::<Seq<char>>::empty(),
            views_of(r.positional_args@) == Seq::<Seq<char>>::empty(),
            r.subcommands is None,
    {
        MissingRequirements { options: Vec::new(), subcommands: None, positional_args: Vec::new() }
    }

    /// Record a missing required option.
    pub fn missing_option(&mut self, name: &str)
        ensures
            views_of(final(self).options@) == views_of(old(self).options@).push(name@),
            final(self).positional_args == old(self).positional_args,
            final(self).subcommands == old(self).subcommands,
    {
        self.options.push(String::from_str(name));
        proof {
            assert(views_of(self.options@) =~= views_of(old(self).options@).push(name@));
        }
    }

    /// Record that one of the named subcommands had to be present.
    pub fn missing_subcommands(&mut self, commands: Vec<String>)
        ensures
            final(self).subcommands == Some(commands),
            final(self).positional_args == old(self).positional_args,
            final(self).options == old(self).options,
    {
        self.subcommands = Some(commands);
    }

    /// Record a missing required positional argument.
    pub fn missing_positional_arg(&mut self, name: &str)
        ensures
            views_of(final(self).positional_args@) == views_of(
                old(self).positional_args@,
            ).push(name@),
            final(self).options == old(self).options,
            final(self).subcommands == old(self).subcommands,
    {
        self.positional_args.push(String::from_str(name));
        proof {
            assert(views_of(self.positional_args@) =~= views_of(
                old(self).positional_args@,
            ).push(name@));
        }
    }

    /// If anything was recorded missing, the consolidated report.
    pub fn err_on_any(&self) -> (r: Result<(), String>)
        ensures
            r is Ok <==> spec_nothing_missing(
                views_of(self.positional_args@),
                views_of(self.options@),
                spec_sub_names(self.subcommands),
            ),
            r is Err ==> r->Err_0@ == spec_missing_message(
                views_of(self.positional_args@),
                views_of(self.options@),
                spec_sub_names(self.subcommands),
            ),
    {
        let no_pos = self.positional_args.len() == 0;
        let no_opt = self.options.len() == 0;
        let no_sub = self.subcommands.is_none();
        if no_pos && no_opt && no_sub {
            return Ok(());
        }
        let mut output = String::new();
        if !no_pos {
            output.append("Required positional arguments not provided:");
            name_list(&mut output, &self.positional_args);
        }
        if !no_opt {
            if !no_pos {
                output.append("\n");
            }
            output.append("Required options not provided:");
            name_list(&mut output, &self.options);
        }
        match &self.subcommands {
            None => {},
            Some(cmds) => {
                if !no_pos || !no_opt {
                    output.append("\n");
                }
                output.append("One of the following subcommands must be present:\n    help");
                name_list(&mut output, cmds);
            },
        }
        output.append("\n");
        proof {
            let mp = views_of(self.positional_args@);
            let mo = views_of(self.options@);
            let ms = spec_sub_names(self.subcommands);
            assert(output@ =~= spec_missing_message(mp, mo, ms));
        }
        Err(output)
    }
}

/// Append each name on its own indented line.
fn name_list(out: &mut String, names: &Vec<String>)
    ensures
        final(out)@ == old(out)@ + spec_name_list(views_of(names@)),
{
    let n: usize = names.len();
    proof {
        assert(views_of(names@).subrange(0, n as int) =~= views_of(names@));
    }
    let mut i: usize = 0;
    while i < n
        invariant
            n == names@.len(),
            i <= n,
            old(out)@ + spec_name_list(views_of(names@)) == out@ + spec_name_list(
                views_of(names@).subrange(i as int, n as int),
            ),
        decreases n - i,
    {
        let ghost rem = views_of(names@).subrange(i as int, n as int);
        proof {
            assert(rem.subrange(1, rem.len() as int) =~= views_of(names@).subrange(
                i + 1,
                n as int,
            ));
            assert(rem[0] == names@[i as int]@);
        }
        out.append("\n    ");
        out.append(names[i].as_str());
        i = i + 1;
    }
    proof {
        assert(views_of(names@).subrange(n as int, n as int) =~= Seq::<Seq<char>>::empty());
        assert(out@ =~= out@ + Seq::<char>::empty());
    }
}

} // verus!
