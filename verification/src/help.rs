//! Help synthesis: rendering a schema into the human-readable usage text.
//! Every piece of the output is stated as a spec-level text and the exec
//! renderer is proved to produce exactly that text.

use vstd::prelude::*;
use vstd::string::StrSliceExecFns;
use vstd::string::StringExecFns;
use crate::numbers::{fmt_i64, spec_i64_string};
use crate::schema::{
    CommandInfo, ErrorCodeInfo, HelpFieldKind, HelpFlagInfo, HelpInfo, HelpPositionalInfo,
    HelpSubCommandInfo,
};
use crate::strtools::{
    concat_map, join_strings, push_char, repeat_char, replace_all, seq_join, spaces, spec_replace,
    spec_split, split_char, views_of,
};

verus! {

/// A line padded with spaces up to the column where descriptions start.
pub open spec fn pad_to_col(line: Seq<char>) -> Seq<char> {
    if line.len() < 20 {
        line + repeat_char(' ', (20 - line.len()) as nat)
    } else {
        line
    }
}

/// The text that greedy word-wrapping appends: each finished line preceded by
/// a newline, each fresh line padded to the description column, later words
/// joined by single spaces while the line stays within 80 characters.
pub open spec fn spec_wrap(words: Seq<Seq<char>>, line: Seq<char>, fresh: bool) -> Seq<char>
    decreases words.len(), (if fresh { 0int } else { 1int }),
{
    if words.len() == 0 {
        seq!['\n'] + line
    } else if fresh {
        spec_wrap(words.subrange(1, words.len() as int), pad_to_col(line) + words[0], false)
    } else if line.len() + words[0].len() + 1 > 80 {
        seq!['\n'] + line + spec_wrap(words, Seq::empty(), true)
    } else {
        spec_wrap(words.subrange(1, words.len() as int), line + seq![' '] + words[0], false)
    }
}

/// The block describing one named entry: the name indented by two spaces and
/// the description word-wrapped beside it.
pub open spec fn spec_write_description(name: Seq<char>, description: Seq<char>) -> Seq<char> {
    let line0 = "  "@ + name;
    if description.len() == 0 {
        seq!['\n'] + line0
    } else if line0.len() < 20 {
        spec_wrap(spec_split(description, ' '), line0, true)
    } else {
        seq!['\n'] + line0 + spec_wrap(spec_split(description, ' '), Seq::empty(), true)
    }
}

/// How one positional argument appears on the usage line.
pub open spec fn spec_pos_usage(p: HelpPositionalInfo) -> Seq<char> {
    (if !(p.optionality is Required) {
        "["@
    } else {
        Seq::empty()
    }) + (if !(p.optionality is Greedy) {
        "<"@
    } else {
        Seq::empty()
    }) + p.name@ + (if p.optionality is Repeating || p.optionality is Greedy {
        "..."@
    } else {
        Seq::empty()
    }) + (if !(p.optionality is Greedy) {
        ">"@
    } else {
        Seq::empty()
    }) + (if !(p.optionality is Required) {
        "]"@
    } else {
        Seq::empty()
    })
}

/// How one flag appears on the usage line.
pub open spec fn spec_flag_usage(f: HelpFlagInfo) -> Seq<char> {
    (if !(f.optionality is Required) {
        "["@
    } else {
        Seq::empty()
    }) + (match f.short {
        Some(c) => seq!['-', c],
        None => f.long@,
    }) + (match f.kind {
        HelpFieldKind::Switch => Seq::<char>::empty(),
        HelpFieldKind::Option { arg_name, parser } => " <"@ + arg_name@ + (
        if f.optionality is Repeating {
            "..."@
        } else {
            Seq::empty()
        }) + ">"@,
    }) + (if !(f.optionality is Required) {
        "]"@
    } else {
        Seq::empty()
    })
}

/// The name column of one flag's description: short alias, comma, long name.
pub open spec fn spec_flag_display_name(f: HelpFlagInfo) -> Seq<char> {
    match f.short {
        Some(c) => seq!['-', c] + ", "@ + f.long@,
        None => f.long@,
    }
}

/// The name column of one subcommand: its name, and its short alias beside it.
pub open spec fn spec_sub_display_name(c: HelpSubCommandInfo) -> Seq<char> {
    match c.short {
        Some(s) => c.name@ + "  "@ + s@,
        None => c.name@,
    }
}

/// The usage-line items for the positional arguments of one pass: the
/// non-greedy ones come before the flags, the greedy one after them.
pub open spec fn spec_usage_positionals(ps: Seq<HelpPositionalInfo>, greedy: bool) -> Seq<char> {
    concat_map(
        ps,
        |p: HelpPositionalInfo|
            if !p.hidden && (p.optionality is Greedy) == greedy {
                " "@ + spec_pos_usage(p)
            } else {
                Seq::empty()
            },
    )
}

/// The usage-line items for the flags.
pub open spec fn spec_usage_flags(fs: Seq<HelpFlagInfo>) -> Seq<char> {
    concat_map(
        fs,
        |f: HelpFlagInfo|
            if !f.hidden {
                " "@ + spec_flag_usage(f)
            } else {
                Seq::empty()
            },
    )
}

/// The usage line after `Usage: `: command path, positionals, flags, the
/// greedy positional, and the subcommand placeholder.
pub open spec fn spec_usage_string(schema: HelpInfo, name: Seq<char>) -> Seq<char> {
    name + spec_usage_positionals(schema.positionals@, false) + spec_usage_flags(schema.flags@)
        + spec_usage_positionals(schema.positionals@, true) + (match schema.subcommand {
        None => Seq::<char>::empty(),
        Some(sub) => if sub.optional {
            " [<command>] [<args>]"@
        } else {
            " <command> [<args>]"@
        },
    })
}

/// Whether any positional argument is listed under `Positional Arguments:`.
pub open spec fn spec_has_visible_positional(ps: Seq<HelpPositionalInfo>) -> bool {
    exists|i: int| 0 <= i < ps.len() && !ps[i].hidden && !(ps[i].optionality is Greedy)
}

/// The entries of the `Positional Arguments:` section.
pub open spec fn spec_positionals_block(ps: Seq<HelpPositionalInfo>) -> Seq<char> {
    concat_map(
        ps,
        |p: HelpPositionalInfo|
            if !p.hidden && !(p.optionality is Greedy) {
                spec_write_description(p.name@, p.description@)
            } else {
                Seq::empty()
            },
    )
}

/// The entries of the `Options:` section, without the implicit help entry.
pub open spec fn spec_options_block(fs: Seq<HelpFlagInfo>) -> Seq<char> {
    concat_map(
        fs,
        |f: HelpFlagInfo|
            if !f.hidden {
                spec_write_description(spec_flag_display_name(f), f.description@)
            } else {
                Seq::empty()
            },
    )
}

/// The entries of the `Commands:` section.
pub open spec fn spec_commands_block(cs: Seq<HelpSubCommandInfo>) -> Seq<char> {
    concat_map(
        cs,
        |c: HelpSubCommandInfo| spec_write_description(spec_sub_display_name(c), c.description@),
    )
}

/// The description blocks for a plain command list.
pub open spec fn spec_command_info_block(cs: Seq<CommandInfo>) -> Seq<char> {
    concat_map(cs, |c: CommandInfo| spec_write_description(c.name@, c.description@))
}

/// Each line indented by two spaces on a fresh line.
pub open spec fn spec_lines_block(lines: Seq<Seq<char>>) -> Seq<char> {
    concat_map(lines, |l: Seq<char>| "\n  "@ + l)
}

/// The lines of each entry of an `Examples:` or `Notes:` section, with
/// `{command_name}` replaced by the command path.
pub open spec fn spec_lits_entries(lits: Seq<Seq<char>>, name: Seq<char>) -> Seq<char> {
    concat_map(
        lits,
        |l: Seq<char>| spec_lines_block(spec_split(spec_replace(l, "{command_name}"@, name), '\n')),
    )
}

/// An `Examples:` or `Notes:` section: absent when there is nothing to show,
/// else the heading and each entry's lines.
pub open spec fn spec_lits_section(lits: Seq<Seq<char>>, heading: Seq<char>, name: Seq<char>) -> Seq<
    char,
> {
    if lits.len() == 0 {
        Seq::empty()
    } else {
        "\n\n"@ + heading + spec_lits_entries(lits, name)
    }
}

/// The `Error codes:` entries.
pub open spec fn spec_error_codes_block(ecs: Seq<ErrorCodeInfo>) -> Seq<char> {
    concat_map(
        ecs,
        |e: ErrorCodeInfo| "\n  "@ + spec_i64_string(e.code as int) + " "@ + e.description@,
    )
}

/// The full help text for a schema rendered at a command path.
pub open spec fn spec_help(schema: HelpInfo, cmd: Seq<Seq<char>>) -> Seq<char> {
    let name = seq_join(cmd, " "@);
    "Usage: "@ + spec_usage_string(schema, name) + "\n\n"@ + schema.description@ + (
    if spec_has_visible_positional(schema.positionals@) {
        "\n\nPositional Arguments:"@ + spec_positionals_block(schema.positionals@)
    } else {
        Seq::empty()
    }) + "\n\nOptions:"@ + spec_options_block(schema.flags@) + spec_write_description(
        seq_join(views_of(schema.help_triggers@), ", "@),
        "display usage information"@,
    ) + (match schema.subcommand {
        None => Seq::<char>::empty(),
        Some(sub) => "\n\nCommands:"@ + spec_commands_block(sub.commands@ + sub.dynamic_commands@),
    }) + spec_lits_section(views_of(schema.examples@), "Examples:"@, name) + spec_lits_section(
        views_of(schema.notes@),
        "Notes:"@,
        name,
    ) + (if schema.error_codes@.len() > 0 {
        "\n\nError codes:"@ + spec_error_codes_block(schema.error_codes@)
    } else {
        Seq::empty()
    }) + "\n"@
}

/// Append the two-space-indented name and the word-wrapped description.
fn write_desc(out: &mut String, name: &str, description: &str)
    ensures
        final(out)@ == old(out)@ + spec_write_description(name@, description@),
{
    let mut line = String::from_str("  ");
    line.append(name);
    if description.unicode_len() == 0 {
        push_char(out, '\n');
        out.append(line.as_str());
        return ;
    }
    let ghost target = old(out)@ + spec_write_description(name@, description@);
    if line.unicode_len() >= 20 {
        push_char(out, '\n');
        out.append(line.as_str());
        line = String::new();
    }
    let words = split_char(description, ' ');
    let n: usize = words.len();
    let mut fresh: bool = true;
    proof {
        assert(views_of(words@).subrange(0, n as int) =~= views_of(words@));
    }
    let mut i: usize = 0;
    while i < n
        invariant
            n == words@.len(),
            i <= n,
            target == out@ + spec_wrap(views_of(words@).subrange(i as int, n as int), line@, fresh),
        decreases 2 * (n - i) + (if fresh { 0int } else { 1int }),
    {
        let ghost rem = views_of(words@).subrange(i as int, n as int);
        proof {
            assert(rem.subrange(1, rem.len() as int) =~= views_of(words@).subrange(
                i + 1,
                n as int,
            ));
            assert(rem[0] == words@[i as int]@);
        }
        if fresh {
            let ghost line_before = line@;
            if line.unicode_len() < 20 {
                let pad = spaces(20 - line.unicode_len());
                line.append(pad.as_str());
            }
            proof {
                assert(line@ =~= pad_to_col(line_before));
            }
            line.append(words[i].as_str());
            fresh = false;
            i = i + 1;
        } else {
            let over: bool = (line.unicode_len() as u128) + (words[i].unicode_len() as u128) + 1
                > 80;
            if over {
                push_char(out, '\n');
                out.append(line.as_str());
                line = String::new();
                fresh = true;
            } else {
                let ghost line_before = line@;
                push_char(&mut line, ' ');
                line.append(words[i].as_str());
                proof {
                    assert(line@ =~= line_before + seq![' '] + words@[i as int]@);
                }
                i = i + 1;
            }
        }
    }
    proof {
        assert(views_of(words@).subrange(n as int, n as int) =~= Seq::<Seq<char>>::empty());
    }
    push_char(out, '\n');
    out.append(line.as_str());
}

/// Append the name and wrapped description of one command entry.
pub fn write_description(out: &mut String, cmd: &CommandInfo)
    ensures
        final(out)@ == old(out)@ + spec_write_description(cmd.name@, cmd.description@),
{
    write_desc(out, cmd.name.as_str(), cmd.description.as_str());
}

/// Append one positional entry of the `Positional Arguments:` section.
pub fn positional_description_format(out: &mut String, name: &str, description: &str)
    ensures
        final(out)@ == old(out)@ + spec_write_description(name@, description@),
{
    write_desc(out, name, description);
}

/// Append one flag entry of the `Options:` section, naming the short alias
/// and the long name.
pub fn option_description_format(
    out: &mut String,
    short: Option<char>,
    long_with_leading_dashes: &str,
    description: &str,
)
    ensures
        final(out)@ == old(out)@ + spec_write_description(
            match short {
                Some(c) => seq!['-', c] + ", "@ + long_with_leading_dashes@,
                None => long_with_leading_dashes@,
            },
            description@,
        ),
{
    let mut name = String::new();
    match short {
        Some(c) => {
            push_char(&mut name, '-');
            push_char(&mut name, c);
            name.append(", ");
            name.append(long_with_leading_dashes);
            proof {
                assert(name@ =~= seq!['-', short->0] + ", "@ + long_with_leading_dashes@);
            }
        },
        None => {
            name.append(long_with_leading_dashes);
        },
    }
    write_desc(out, name.as_str(), description);
}

/// The command-name-and-description blocks for a list of commands.
pub fn print_subcommands(commands: &Vec<CommandInfo>) -> (r: String)
    ensures
        r@ == spec_command_info_block(commands@),
{
    let mut out = String::new();
    let n: usize = commands.len();
    proof {
        assert(commands@.subrange(0, n as int) =~= commands@);
    }
    let mut i: usize = 0;
    while i < n
        invariant
            n == commands@.len(),
            i <= n,
            spec_command_info_block(commands@) == out@ + spec_command_info_block(
                commands@.subrange(i as int, n as int),
            ),
        decreases n - i,
    {
        let ghost rem = commands@.subrange(i as int, n as int);
        proof {
            assert(rem.subrange(1, rem.len() as int) =~= commands@.subrange(i + 1, n as int));
            assert(rem[0] == commands@[i as int]);
        }
        write_description(&mut out, &commands[i]);
        i = i + 1;
    }
    proof {
        assert(commands@.subrange(n as int, n as int) =~= Seq::<CommandInfo>::empty());
        assert(out@ =~= out@ + Seq::<char>::empty());
    }
    out
}

impl HelpPositionalInfo {
    /// Append this positional's usage, like `[<foo...>]`.
    pub fn help_usage(&self, out: &mut String)
        ensures
            final(out)@ == old(out)@ + spec_pos_usage(*self),
    {
        if !self.optionality.is_required() {
            out.append("[");
        }
        if !matches!(self.optionality, crate::schema::Optionality::Greedy) {
            out.append("<");
        }
        out.append(self.name.as_str());
        if matches!(
            self.optionality,
            crate::schema::Optionality::Repeating | crate::schema::Optionality::Greedy
        ) {
            out.append("...");
        }
        if !matches!(self.optionality, crate::schema::Optionality::Greedy) {
            out.append(">");
        }
        if !self.optionality.is_required() {
            out.append("]");
        }
    }

    /// Append this positional's description block.
    pub fn help_description(&self, out: &mut String)
        ensures
            final(out)@ == old(out)@ + spec_write_description(self.name@, self.description@),
    {
        write_desc(out, self.name.as_str(), self.description.as_str());
    }
}

impl HelpFlagInfo {
    /// Append this flag's usage, like `[-f <foo>]`.
    pub fn help_usage(&self, out: &mut String)
        ensures
            final(out)@ == old(out)@ + spec_flag_usage(*self),
    {
        if !self.optionality.is_required() {
            out.append("[");
        }
        match self.short {
            Some(c) => {
                push_char(out, '-');
                push_char(out, c);
            },
            None => {
                out.append(self.long.as_str());
            },
        }
        match &self.kind {
            HelpFieldKind::Switch => {},
            HelpFieldKind::Option { arg_name, parser } => {
                out.append(" <");
                out.append(arg_name.as_str());
                if matches!(self.optionality, crate::schema::Optionality::Repeating) {
                    out.append("...");
                }
                out.append(">");
            },
        }
        if !self.optionality.is_required() {
            out.append("]");
        }
    }

    /// Append this flag's description block.
    pub fn help_description(&self, out: &mut String)
        ensures
            final(out)@ == old(out)@ + spec_write_description(
                spec_flag_display_name(*self),
                self.description@,
            ),
    {
        option_description_format(out, self.short, self.long.as_str(), self.description.as_str());
    }
}

/// Append an `Examples:` or `Notes:` section.
fn lits_section(out: &mut String, lits: &Vec<String>, heading: &str, name: &str)
    ensures
        final(out)@ == old(out)@ + spec_lits_section(views_of(lits@), heading@, name@),
{
    let n: usize = lits.len();
    if n == 0 {
        return ;
    }
    let ghost target = old(out)@ + spec_lits_section(views_of(lits@), heading@, name@);
    out.append("\n\n");
    out.append(heading);
    proof {
        reveal_strlit("{command_name}");
        assert(views_of(lits@).subrange(0, n as int) =~= views_of(lits@));
    }
    let mut i: usize = 0;
    while i < n
        invariant
            n == lits@.len(),
            i <= n,
            "{command_name}"@.len() > 0,
            target == out@ + spec_lits_entries(
                views_of(lits@).subrange(i as int, n as int),
                name@,
            ),
        decreases n - i,
    {
        let ghost rem = views_of(lits@).subrange(i as int, n as int);
        proof {
            assert(rem.subrange(1, rem.len() as int) =~= views_of(lits@).subrange(i + 1, n as int));
            assert(rem[0] == lits@[i as int]@);
        }
        let replaced = replace_all(lits[i].as_str(), "{command_name}", name);
        let lines = split_char(replaced.as_str(), '\n');
        let m: usize = lines.len();
        proof {
            assert(views_of(lines@).subrange(0, m as int) =~= views_of(lines@));
        }
        let mut j: usize = 0;
        while j < m
            invariant
                m == lines@.len(),
                j <= m,
                n == lits@.len(),
                i < n,
                "{command_name}"@.len() > 0,
                target == out@ + spec_lines_block(views_of(lines@).subrange(j as int, m as int))
                    + spec_lits_entries(views_of(lits@).subrange(i + 1, n as int), name@),
            decreases m - j,
        {
            let ghost lrem = views_of(lines@).subrange(j as int, m as int);
            proof {
                assert(lrem.subrange(1, lrem.len() as int) =~= views_of(lines@).subrange(
                    j + 1,
                    m as int,
                ));
                assert(lrem[0] == lines@[j as int]@);
            }
            out.append("\n  ");
            out.append(lines[j].as_str());
            j = j + 1;
        }
        proof {
            assert(views_of(lines@).subrange(m as int, m as int) =~= Seq::<Seq<char>>::empty());
        }
        i = i + 1;
    }
    proof {
        assert(views_of(lits@).subrange(n as int, n as int) =~= Seq::<Seq<char>>::empty());
        assert(out@ =~= out@ + Seq::<char>::empty());
    }
}

/// Whether any positional argument will be listed in the help text.
fn has_visible_positional(ps: &Vec<HelpPositionalInfo>) -> (r: bool)
    ensures
        r == spec_has_visible_positional(ps@),
{
    let n: usize = ps.len();
    let mut i: usize = 0;
    while i < n
        invariant
            n == ps@.len(),
            i <= n,
            forall|j: int| 0 <= j < i ==> (ps@[j].hidden || ps@[j].optionality is Greedy),
        decreases n - i,
    {
        if !ps[i].hidden && !matches!(ps[i].optionality, crate::schema::Optionality::Greedy) {
            return true;
        }
        i = i + 1;
    }
    false
}

impl HelpInfo {
    /// The usage line for this schema at the given command path text.
    pub fn usage_string(&self, name: &str) -> (r: String)
        ensures
            r@ == spec_usage_string(*self, name@),
    {
        let mut out = String::from_str(name);
        usage_positionals(&mut out, &self.positionals, false);
        usage_flags(&mut out, &self.flags);
        usage_positionals(&mut out, &self.positionals, true);
        match &self.subcommand {
            None => {},
            Some(sub) => {
                if sub.optional {
                    out.append(" [<command>] [<args>]");
                } else {
                    out.append(" <command> [<args>]");
                }
            },
        }
        out
    }

    /// The full help text for this schema at the given command path.
    pub fn help(&self, command_name: &[String]) -> (r: String)
        ensures
            r@ == spec_help(*self, views_of(command_name@)),
    {
        let ghost cmdv = views_of(command_name@);
        let ghost name_v = seq_join(cmdv, " "@);
        let ghost pos_sec = if spec_has_visible_positional(self.positionals@) {
            "\n\nPositional Arguments:"@ + spec_positionals_block(self.positionals@)
        } else {
            Seq::<char>::empty()
        };
        let ghost cmd_sec = if self.subcommand is Some {
            "\n\nCommands:"@ + spec_commands_block(
                self.subcommand->0.commands@ + self.subcommand->0.dynamic_commands@,
            )
        } else {
            Seq::<char>::empty()
        };
        let ghost err_sec = if self.error_codes@.len() > 0 {
            "\n\nError codes:"@ + spec_error_codes_block(self.error_codes@)
        } else {
            Seq::<char>::empty()
        };
        let ghost e0 = "Usage: "@ + spec_usage_string(*self, name_v);
        let ghost e1 = e0 + "\n\n"@;
        let ghost e2 = e1 + self.description@;
        let ghost e3 = e2 + pos_sec;
        let ghost e4 = e3 + "\n\nOptions:"@;
        let ghost e5 = e4 + spec_options_block(self.flags@);
        let ghost e6 = e5 + spec_write_description(
            seq_join(views_of(self.help_triggers@), ", "@),
            "display usage information"@,
        );
        let ghost e7 = e6 + cmd_sec;
        let ghost e8 = e7 + spec_lits_section(views_of(self.examples@), "Examples:"@, name_v);
        let ghost e9 = e8 + spec_lits_section(views_of(self.notes@), "Notes:"@, name_v);
        let ghost e10 = e9 + err_sec;
        let ghost e11 = e10 + "\n"@;
        let name = join_strings(command_name, " ");
        let mut out = String::from_str("Usage: ");
        let usage = self.usage_string(name.as_str());
        out.append(usage.as_str());
        proof {
            assert(out@ == e0);
        }
        out.append("\n\n");
        out.append(self.description.as_str());
        proof {
            assert(out@ == e2);
        }
        if has_visible_positional(&self.positionals) {
            out.append("\n\nPositional Arguments:");
            positionals_block(&mut out, &self.positionals);
            proof {
                assert(out@ =~= e3);
            }
        } else {
            proof {
                assert(out@ =~= e3);
            }
        }
        out.append("\n\nOptions:");
        options_block(&mut out, &self.flags);
        let triggers = join_strings(self.help_triggers.as_slice(), ", ");
        write_desc(&mut out, triggers.as_str(), "display usage information");
        proof {
            assert(out@ == e6);
        }
        match &self.subcommand {
            None => {
                proof {
                    assert(out@ =~= e7);
                }
            },
            Some(sub) => {
                out.append("\n\nCommands:");
                commands_block(&mut out, &sub.commands, &sub.dynamic_commands);
                proof {
                    assert(out@ =~= e7);
                }
            },
        }
        lits_section(&mut out, &self.examples, "Examples:", name.as_str());
        lits_section(&mut out, &self.notes, "Notes:", name.as_str());
        proof {
            assert(out@ == e9);
        }
        if self.error_codes.len() > 0 {
            out.append("\n\nError codes:");
            error_codes_block(&mut out, &self.error_codes);
            proof {
                assert(out@ =~= e10);
            }
        } else {
            proof {
                assert(out@ =~= e10);
            }
        }
        push_char(&mut out, '\n');
        proof {
            reveal_strlit("\n");
            assert(out@ =~= e11);
            assert(spec_help(*self, cmdv) == e11);
        }
        out
    }
}

/// Append one pass of positional usage items.
fn usage_positionals(out: &mut String, ps: &Vec<HelpPositionalInfo>, greedy: bool)
    ensures
        final(out)@ == old(out)@ + spec_usage_positionals(ps@, greedy),
{
    let n: usize = ps.len();
    proof {
        assert(ps@.subrange(0, n as int) =~= ps@);
    }
    let mut i: usize = 0;
    while i < n
        invariant
            n == ps@.len(),
            i <= n,
            old(out)@ + spec_usage_positionals(ps@, greedy) == out@ + spec_usage_positionals(
                ps@.subrange(i as int, n as int),
                greedy,
            ),
        decreases n - i,
    {
        let ghost rem = ps@.subrange(i as int, n as int);
        proof {
            assert(rem.subrange(1, rem.len() as int) =~= ps@.subrange(i + 1, n as int));
            assert(rem[0] == ps@[i as int]);
        }
        let is_greedy = matches!(ps[i].optionality, crate::schema::Optionality::Greedy);
        if !ps[i].hidden && is_greedy == greedy {
            out.append(" ");
            ps[i].help_usage(out);
        }
        i = i + 1;
    }
    proof {
        assert(ps@.subrange(n as int, n as int) =~= Seq::<HelpPositionalInfo>::empty());
        assert(out@ =~= out@ + Seq::<char>::empty());
    }
}

/// Append the flags' usage items.
fn usage_flags(out: &mut String, fs: &Vec<HelpFlagInfo>)
    ensures
        final(out)@ == old(out)@ + spec_usage_flags(fs@),
{
    let n: usize = fs.len();
    proof {
        assert(fs@.subrange(0, n as int) =~= fs@);
    }
    let mut i: usize = 0;
    while i < n
        invariant
            n == fs@.len(),
            i <= n,
            old(out)@ + spec_usage_flags(fs@) == out@ + spec_usage_flags(
                fs@.subrange(i as int, n as int),
            ),
        decreases n - i,
    {
        let ghost rem = fs@.subrange(i as int, n as int);
        proof {
            assert(rem.subrange(1, rem.len() as int) =~= fs@.subrange(i + 1, n as int));
            assert(rem[0] == fs@[i as int]);
        }
        if !fs[i].hidden {
            out.append(" ");
            fs[i].help_usage(out);
        }
        i = i + 1;
    }
    proof {
        assert(fs@.subrange(n as int, n as int) =~= Seq::<HelpFlagInfo>::empty());
        assert(out@ =~= out@ + Seq::<char>::empty());
    }
}

/// Append the `Positional Arguments:` entries.
fn positionals_block(out: &mut String, ps: &Vec<HelpPositionalInfo>)
    ensures
        final(out)@ == old(out)@ + spec_positionals_block(ps@),
{
    let n: usize = ps.len();
    proof {
        assert(ps@.subrange(0, n as int) =~= ps@);
    }
    let mut i: usize = 0;
    while i < n
        invariant
            n == ps@.len(),
            i <= n,
            old(out)@ + spec_positionals_block(ps@) == out@ + spec_positionals_block(
                ps@.subrange(i as int, n as int),
            ),
        decreases n - i,
    {
        let ghost rem = ps@.subrange(i as int, n as int);
        proof {
            assert(rem.subrange(1, rem.len() as int) =~= ps@.subrange(i + 1, n as int));
            assert(rem[0] == ps@[i as int]);
        }
        if !ps[i].hidden && !matches!(ps[i].optionality, crate::schema::Optionality::Greedy) {
            ps[i].help_description(out);
        }
        i = i + 1;
    }
    proof {
        assert(ps@.subrange(n as int, n as int) =~= Seq::<HelpPositionalInfo>::empty());
        assert(out@ =~= out@ + Seq::<char>::empty());
    }
}

/// Append the `Options:` entries, without the implicit help entry.
fn options_block(out: &mut String, fs: &Vec<HelpFlagInfo>)
    ensures
        final(out)@ == old(out)@ + spec_options_block(fs@),
{
    let n: usize = fs.len();
    proof {
        assert(fs@.subrange(0, n as int) =~= fs@);
    }
    let mut i: usize = 0;
    while i < n
        invariant
            n == fs@.len(),
            i <= n,
            old(out)@ + spec_options_block(fs@) == out@ + spec_options_block(
                fs@.subrange(i as int, n as int),
            ),
        decreases n - i,
    {
        let ghost rem = fs@.subrange(i as int, n as int);
        proof {
            assert(rem.subrange(1, rem.len() as int) =~= fs@.subrange(i + 1, n as int));
            assert(rem[0] == fs@[i as int]);
        }
        if !fs[i].hidden {
            fs[i].help_description(out);
        }
        i = i + 1;
    }
    proof {
        assert(fs@.subrange(n as int, n as int) =~= Seq::<HelpFlagInfo>::empty());
        assert(out@ =~= out@ + Seq::<char>::empty());
    }
}

/// Append the `Commands:` entries: static subcommands, then dynamic ones.
fn commands_block(
    out: &mut String,
    stat: &Vec<HelpSubCommandInfo>,
    dynamic: &Vec<HelpSubCommandInfo>,
)
    ensures
        final(out)@ == old(out)@ + spec_commands_block(stat@ + dynamic@),
{
    let ghost all = stat@ + dynamic@;
    let n1: usize = stat.len();
    let n2: usize = dynamic.len();
    proof {
        assert(all.subrange(0, all.len() as int) =~= all);
    }
    let mut i: usize = 0;
    while i < n1
        invariant
            n1 == stat@.len(),
            n2 == dynamic@.len(),
            all == stat@ + dynamic@,
            i <= n1,
            old(out)@ + spec_commands_block(all) == out@ + spec_commands_block(
                all.subrange(i as int, all.len() as int),
            ),
        decreases n1 - i,
    {
        let ghost rem = all.subrange(i as int, all.len() as int);
        proof {
            assert(rem.subrange(1, rem.len() as int) =~= all.subrange(i + 1, all.len() as int));
            assert(rem[0] == all[i as int]);
            assert(stat@[i as int] == all[i as int]);
        }
        command_entry(out, &stat[i]);
        i = i + 1;
    }
    let mut j: usize = 0;
    while j < n2
        invariant
            n1 == stat@.len(),
            n2 == dynamic@.len(),
            all == stat@ + dynamic@,
            j <= n2,
            old(out)@ + spec_commands_block(all) == out@ + spec_commands_block(
                all.subrange(n1 + j, all.len() as int),
            ),
        decreases n2 - j,
    {
        let ghost rem = all.subrange(n1 + j, all.len() as int);
        proof {
            assert(rem.subrange(1, rem.len() as int) =~= all.subrange(
                n1 + j + 1,
                all.len() as int,
            ));
            assert(rem[0] == all[n1 + j]);
            assert(dynamic@[j as int] == all[n1 + j]);
        }
        command_entry(out, &dynamic[j]);
        j = j + 1;
    }
    proof {
        assert(all.subrange(all.len() as int, all.len() as int)
            =~= Seq::<HelpSubCommandInfo>::empty());
        assert(out@ =~= out@ + Seq::<char>::empty());
    }
}

/// Append one `Commands:` entry.
fn command_entry(out: &mut String, c: &HelpSubCommandInfo)
    ensures
        final(out)@ == old(out)@ + spec_write_description(
            spec_sub_display_name(*c),
            c.description@,
        ),
{
    let mut display = String::from_str(c.name.as_str());
    match &c.short {
        Some(s) => {
            display.append("  ");
            display.append(s.as_str());
        },
        None => {},
    }
    proof {
        assert(display@ =~= spec_sub_display_name(*c));
    }
    write_desc(out, display.as_str(), c.description.as_str());
}

/// Append the `Error codes:` entries.
fn error_codes_block(out: &mut String, ecs: &Vec<ErrorCodeInfo>)
    ensures
        final(out)@ == old(out)@ + spec_error_codes_block(ecs@),
{
    let n: usize = ecs.len();
    proof {
        assert(ecs@.subrange(0, n as int) =~= ecs@);
    }
    let mut i: usize = 0;
    while i < n
        invariant
            n == ecs@.len(),
            i <= n,
            old(out)@ + spec_error_codes_block(ecs@) == out@ + spec_error_codes_block(
                ecs@.subrange(i as int, n as int),
            ),
        decreases n - i,
    {
        let ghost rem = ecs@.subrange(i as int, n as int);
        proof {
            assert(rem.subrange(1, rem.len() as int) =~= ecs@.subrange(i + 1, n as int));
            assert(rem[0] == ecs@[i as int]);
        }
        out.append("\n  ");
        let code = fmt_i64(ecs[i].code);
        out.append(code.as_str());
        out.append(" ");
        out.append(ecs[i].description.as_str());
        i = i + 1;
    }
    proof {
        assert(ecs@.subrange(n as int, n as int) =~= Seq::<ErrorCodeInfo>::empty());
        assert(out@ =~= out@ + Seq::<char>::empty());
    }
}

} // verus!
