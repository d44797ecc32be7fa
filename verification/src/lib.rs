//! Schema-driven command-line argument parsing.
//!
//! A command is described by a static [`HelpInfo`] schema: its switches and
//! options, its positional arguments, its nested subcommands and the text that
//! documents all of them.  The parser consumes a token list against such a
//! schema and produces either a populated [`ParsedArgs`] value or an
//! [`EarlyExit`] carrying rendered help text or an error message.
//!
//! The whole behaviour is stated against a spec-level machine: what the
//! scanner consumes, which slot each token fills, which inputs fail with
//! which message, and what text the help synthesizer renders.

pub mod api;
pub mod coerce;
pub mod help;
pub mod json;
pub mod laws;
pub mod model;
pub mod msgs;
pub mod numbers;
pub mod parser;
pub mod requirements;
pub mod schema;
pub mod strtools;

pub use api::cmd;
pub use api::dispatch_subcommand;
pub use api::redact_arg_values;
pub use api::DynamicSubCommand;
pub use api::FromArgs;
pub use api::Help;
pub use api::SubCommand;
pub use api::SubCommands;
pub use api::TopLevelCommand;
pub use coerce::check_value;
pub use coerce::Flag;
pub use coerce::FromArgValue;
pub use help::option_description_format;
pub use help::positional_description_format;
pub use help::print_subcommands;
pub use help::write_description;
pub use json::escape_json;
pub use msgs::expected_subcommand;
pub use msgs::no_value_provided;
pub use msgs::option_parse_error;
pub use msgs::positional_parse_error;
pub use msgs::unrecognized_arg;
pub use msgs::unrecognized_argument;
pub use numbers::fmt_i64;
pub use numbers::fmt_u64;
pub use numbers::parse_i64;
pub use numbers::parse_u64;
pub use parser::parse_option;
pub use parser::parse_positional;
pub use parser::parse_struct_args;
pub use parser::prepend_help;
pub use parser::EarlyExit;
pub use parser::FlagSlot;
pub use parser::ParsedArgs;
pub use parser::ParsedSubCommand;
pub use requirements::MissingRequirements;
pub use schema::CommandInfo;
pub use schema::ErrorCodeInfo;
pub use schema::HelpFieldKind;
pub use schema::HelpFlagInfo;
pub use schema::HelpInfo;
pub use schema::HelpPositionalInfo;
pub use schema::HelpSubCommandInfo;
pub use schema::HelpSubCommandsInfo;
pub use schema::Optionality;
pub use schema::ValueParser;
