//! The static description of a command: its flags, positional arguments,
//! subcommands and documentation.  One value of [`HelpInfo`] drives parsing,
//! requirement checking and help synthesis alike.

use vstd::prelude::*;

verus! {

/// Name and one-line description of a command, as listed under `Commands:`.
#[derive(Clone, Debug, PartialEq)]
pub struct CommandInfo {
    /// The name of the command.
    pub name: String,
    /// A short description of the command's functionality.
    pub description: String,
}

/// A documented process exit code.
#[derive(Clone, Debug, PartialEq)]
pub struct ErrorCodeInfo {
    /// The code value.
    pub code: i64,
    /// Short description of what this code indicates.
    pub description: String,
}

/// How often an argument may, or must, appear.
#[derive(Clone, Copy, Debug, PartialEq, Eq, Structural)]
pub enum Optionality {
    /// The argument must be supplied exactly once.
    Required,
    /// The argument may be supplied at most once.
    Optional,
    /// The argument may be supplied any number of times.
    Repeating,
    /// Last positional only: once reached, every later token is taken
    /// verbatim, even tokens that look like flags.
    Greedy,
}

impl Optionality {
    /// True only for an argument that must be supplied.
    pub open spec fn spec_is_required(&self) -> bool {
        *self is Required
    }

    /// True only for an argument that must be supplied.
    #[verifier::when_used_as_spec(spec_is_required)]
    pub fn is_required(&self) -> (r: bool)
        ensures
            r == self.spec_is_required(),
    {
        matches!(*self, Optionality::Required)
    }
}

/// How a raw token is turned into a typed value, and when that fails.
#[derive(Clone, Copy, Debug, PartialEq, Eq, Structural)]
pub enum ValueParser {
    /// Any token is accepted as-is.
    Text,
    /// The token must be a decimal numeral that fits in `u64`.
    UInt,
    /// The token must be a decimal numeral, optionally signed, that fits in `i64`.
    Int,
}

/// What kind of flag a [`HelpFlagInfo`] describes.
#[derive(Clone, Debug, PartialEq)]
pub enum HelpFieldKind {
    /// A switch takes no value; each occurrence increments a counter.
    Switch,
    /// An option consumes exactly one following token as its value.
    Option {
        /// The name under which the value appears in usage text.
        arg_name: String,
        /// How the value token is coerced.
        parser: ValueParser,
    },
}

/// One named flag: a switch or an option.
#[derive(Clone, Debug, PartialEq)]
pub struct HelpFlagInfo {
    /// The canonical long name, dashes included (`"--force"`).
    pub long: String,
    /// An optional one-character short alias (`'f'` is matched as `"-f"`).
    pub short: Option<char>,
    /// Further names that select this flag, dashes included.
    pub synonyms: Vec<String>,
    /// One-line description for the help text.
    pub description: String,
    /// Whether the flag is required, optional or repeating.
    pub optionality: Optionality,
    /// Switch or option.
    pub kind: HelpFieldKind,
    /// A hidden flag is parsed as usual but left out of the help text.
    pub hidden: bool,
}

/// One positional argument.
#[derive(Clone, Debug, PartialEq)]
pub struct HelpPositionalInfo {
    /// The name under which the argument appears in usage and error text.
    pub name: String,
    /// One-line description for the help text.
    pub description: String,
    /// Required, optional, repeating or greedy.
    pub optionality: Optionality,
    /// A hidden positional is parsed as usual but left out of the help text.
    pub hidden: bool,
    /// How each supplied token is coerced.
    pub parser: ValueParser,
}

/// One subcommand: its names and the full schema of the nested command.
pub struct HelpSubCommandInfo {
    /// The canonical name, used to build the command path.
    pub name: String,
    /// An optional short alias (`"o"` for `"one"`).
    pub short: Option<String>,
    /// Further names that select this subcommand.
    pub synonyms: Vec<String>,
    /// One-line description for the `Commands:` listing.
    pub description: String,
    /// The nested command's own schema.
    pub info: HelpInfo,
}

/// The subcommand slot of a schema: the statically declared subcommands plus
/// any discovered at run time, already merged in by the caller.
pub struct HelpSubCommandsInfo {
    /// When true the command also parses with no subcommand given.
    pub optional: bool,
    /// The statically declared subcommands, in declaration order.
    pub commands: Vec<HelpSubCommandInfo>,
    /// Subcommands supplied by a run-time provider, in discovery order.
    pub dynamic_commands: Vec<HelpSubCommandInfo>,
}

/// The full static schema of one command.
pub struct HelpInfo {
    /// Description shown under the usage line.
    pub description: String,
    /// Usage examples; `{command_name}` is replaced by the command path.
    pub examples: Vec<String>,
    /// Free-form notes; `{command_name}` is replaced by the command path.
    pub notes: Vec<String>,
    /// The flags, in declaration order.
    pub flags: Vec<HelpFlagInfo>,
    /// The positional arguments, in declaration order.
    pub positionals: Vec<HelpPositionalInfo>,
    /// The subcommand slot, if the command has one.
    pub subcommand: Option<HelpSubCommandsInfo>,
    /// Documented exit codes.
    pub error_codes: Vec<ErrorCodeInfo>,
    /// The tokens that trigger help output, `["--help", "help"]` by default.
    pub help_triggers: Vec<String>,
}

} // verus!
