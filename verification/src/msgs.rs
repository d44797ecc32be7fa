//! The parser's error messages, each stated as a spec-level text and built by
//! a verified function.

use vstd::prelude::*;
use vstd::string::StringExecFns;
use crate::strtools::{join_strings, seq_join, views_of};

verus! {

/// The message for a flag-shaped token that matches no flag, and for a
/// positional token with no slot left.
pub open spec fn spec_unrecognized(x: Seq<char>) -> Seq<char> {
    "Unrecognized argument: "@ + x + "\n"@
}

/// The message for an option flag with no following token.
pub open spec fn spec_no_value(arg: Seq<char>) -> Seq<char> {
    "No value provided for option '"@ + arg + "'.\n"@
}

/// The message for an option value that fails coercion.
pub open spec fn spec_option_error(arg: Seq<char>, value: Seq<char>, err: Seq<char>) -> Seq<char> {
    "Error parsing option '"@ + arg + "' with value '"@ + value + "': "@ + err + "\n"@
}

/// The message for a positional value that fails coercion.
pub open spec fn spec_positional_error(name: Seq<char>, value: Seq<char>, err: Seq<char>) -> Seq<
    char,
> {
    "Error parsing positional argument '"@ + name + "' with value '"@ + value + "': "@ + err
        + "\n"@
}

/// The message for a token that follows a help trigger.
pub open spec fn spec_trailing_after_help() -> Seq<char> {
    "Trailing arguments are not allowed after `help`."@
}

/// The message naming the subcommands a command accepts.
pub open spec fn spec_expected_subcommand(commands: Seq<Seq<char>>) -> Seq<char> {
    "Expected one of the following subcommands: "@ + seq_join(commands, ", "@) + "\n"@
}

/// Report a flag-shaped token that matches no flag, or a positional token
/// with no slot left to fill.
pub fn unrecognized_argument(x: &str) -> (r: String)
    ensures
        r@ == spec_unrecognized(x@),
{
    let mut out = String::from_str("Unrecognized argument: ");
    out.append(x);
    out.append("\n");
    out
}

/// Report a positional token with no slot left to fill.
pub fn unrecognized_arg(arg: &str) -> (r: String)
    ensures
        r@ == spec_unrecognized(arg@),
{
    unrecognized_argument(arg)
}

/// Report an option flag that stands last, with no token left as its value.
pub fn no_value_provided(arg: &str) -> (r: String)
    ensures
        r@ == spec_no_value(arg@),
{
    let mut out = String::from_str("No value provided for option '");
    out.append(arg);
    out.append("'.\n");
    out
}

/// Report an option whose value failed coercion.
pub fn option_parse_error(arg: &str, value: &str, err: &str) -> (r: String)
    ensures
        r@ == spec_option_error(arg@, value@, err@),
{
    let mut out = String::from_str("Error parsing option '");
    out.append(arg);
    out.append("' with value '");
    out.append(value);
    out.append("': ");
    out.append(err);
    out.append("\n");
    out
}

/// Report a positional argument whose value failed coercion.
pub fn positional_parse_error(name: &str, value: &str, err: &str) -> (r: String)
    ensures
        r@ == spec_positional_error(name@, value@, err@),
{
    let mut out = String::from_str("Error parsing positional argument '");
    out.append(name);
    out.append("' with value '");
    out.append(value);
    out.append("': ");
    out.append(err);
    out.append("\n");
    out
}

/// Report that one of the named subcommands had to be present.
pub fn expected_subcommand(commands: &[String]) -> (r: String)
    ensures
        r@ == spec_expected_subcommand(views_of(commands@)),
{
    let mut out = String::from_str("Expected one of the following subcommands: ");
    let joined = join_strings(commands, ", ");
    out.append(joined.as_str());
    out.append("\n");
    out
}

} // verus!
