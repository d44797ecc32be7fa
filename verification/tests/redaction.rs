#![allow(dead_code)]

use argh::{
    EarlyExit, HelpFieldKind, HelpFlagInfo, HelpInfo, HelpPositionalInfo, HelpSubCommandInfo,
    HelpSubCommandsInfo, Optionality, ValueParser,
};

fn s(x: &str) -> String {
    x.to_string()
}

fn strs(xs: &[&str]) -> Vec<String> {
    xs.iter().map(|x| x.to_string()).collect()
}

fn default_triggers() -> Vec<String> {
    vec![s("--help"), s("help")]
}

fn schema(
    description: &str,
    flags: Vec<HelpFlagInfo>,
    positionals: Vec<HelpPositionalInfo>,
    subcommand: Option<HelpSubCommandsInfo>,
) -> HelpInfo {
    HelpInfo {
        description: s(description),
        examples: vec![],
        notes: vec![],
        flags,
        positionals,
        subcommand,
        error_codes: vec![],
        help_triggers: default_triggers(),
    }
}

fn switch(long: &str, short: Option<char>, description: &str) -> HelpFlagInfo {
    HelpFlagInfo {
        long: s(long),
        short,
        synonyms: vec![],
        description: s(description),
        optionality: Optionality::Optional,
        kind: HelpFieldKind::Switch,
        hidden: false,
    }
}

fn opt(
    long: &str,
    short: Option<char>,
    arg_name: &str,
    optionality: Optionality,
    parser: ValueParser,
    description: &str,
) -> HelpFlagInfo {
    HelpFlagInfo {
        long: s(long),
        short,
        synonyms: vec![],
        description: s(description),
        optionality,
        kind: HelpFieldKind::Option { arg_name: s(arg_name), parser },
        hidden: false,
    }
}

fn pos(name: &str, optionality: Optionality, parser: ValueParser, description: &str) -> HelpPositionalInfo {
    HelpPositionalInfo {
        name: s(name),
        description: s(description),
        optionality,
        hidden: false,
        parser,
    }
}

fn sub(name: &str, description: &str, info: HelpInfo) -> HelpSubCommandInfo {
    HelpSubCommandInfo {
        name: s(name),
        short: None,
        synonyms: vec![],
        description: s(description),
        info,
    }
}

fn subs(commands: Vec<HelpSubCommandInfo>) -> Option<HelpSubCommandsInfo> {
    Some(HelpSubCommandsInfo { optional: false, commands, dynamic_commands: vec![] })
}

fn redact(sc: &HelpInfo, cmd: &[&str], args: &[&str]) -> Result<Vec<String>, EarlyExit> {
    argh::redact_arg_values(&strs(cmd), &strs(args), sc)
}

#[test]
fn redact_arg_values_no_args() {
    let sc = schema(
        "Short description",
        vec![opt("--msg", None, "msg", Optionality::Optional, ValueParser::Text, "a msg param")],
        vec![],
        None,
    );
    let actual = redact(&sc, &["program-name"], &[]).unwrap();
    assert_eq!(actual, strs(&["program-name"]));
}

#[test]
fn redact_arg_values_optional_arg() {
    let sc = schema(
        "Short description",
        vec![opt("--msg", None, "msg", Optionality::Optional, ValueParser::Text, "a msg param")],
        vec![],
        None,
    );
    let actual = redact(&sc, &["program-name"], &["--msg", "hello"]).unwrap();
    assert_eq!(actual, strs(&["program-name", "--msg"]));
}

#[test]
fn redact_arg_values_optional_arg_short() {
    let sc = schema(
        "Short description",
        vec![opt("--msg", Some('m'), "msg", Optionality::Optional, ValueParser::Text, "a msg param")],
        vec![],
        None,
    );
    let actual = redact(&sc, &["program-name"], &["-m", "hello"]).unwrap();
    assert_eq!(actual, strs(&["program-name", "-m"]));
}

#[test]
fn redact_arg_values_optional_arg_long() {
    let sc = schema(
        "Short description",
        vec![opt("--my-msg", None, "msg", Optionality::Optional, ValueParser::Text, "a msg param")],
        vec![],
        None,
    );
    let actual = redact(&sc, &["program-name"], &["--my-msg", "hello"]).unwrap();
    assert_eq!(actual, strs(&["program-name", "--my-msg"]));
}

#[test]
fn redact_arg_values_two_option_args() {
    let sc = schema(
        "Short description",
        vec![
            opt("--msg", None, "msg", Optionality::Required, ValueParser::Text, "a msg param"),
            opt("--delivery", None, "delivery", Optionality::Required, ValueParser::Text, "a delivery param"),
        ],
        vec![],
        None,
    );
    let actual = redact(&sc, &["program-name"], &["--msg", "hello", "--delivery", "next day"]).unwrap();
    assert_eq!(actual, strs(&["program-name", "--msg", "--delivery"]));
}

#[test]
fn redact_arg_values_option_one_optional_args() {
    let sc = schema(
        "Short description",
        vec![
            opt("--msg", None, "msg", Optionality::Required, ValueParser::Text, "a msg param"),
            opt("--delivery", None, "delivery", Optionality::Optional, ValueParser::Text, "a delivery param"),
        ],
        vec![],
        None,
    );
    let actual = redact(&sc, &["program-name"], &["--msg", "hello", "--delivery", "next day"]).unwrap();
    assert_eq!(actual, strs(&["program-name", "--msg", "--delivery"]));

    let actual = redact(&sc, &["program-name"], &["--msg", "hello"]).unwrap();
    assert_eq!(actual, strs(&["program-name", "--msg"]));
}

#[test]
fn redact_arg_values_option_repeating() {
    let sc = schema(
        "Short description",
        vec![opt("--msg", None, "msg", Optionality::Repeating, ValueParser::Text, "fooey")],
        vec![],
        None,
    );
    let actual = redact(&sc, &["program-name"], &[]).unwrap();
    assert_eq!(actual, strs(&["program-name"]));

    let actual = redact(&sc, &["program-name"], &["--msg", "abc", "--msg", "xyz"]).unwrap();
    assert_eq!(actual, strs(&["program-name", "--msg", "--msg"]));
}

#[test]
fn redact_arg_values_switch() {
    let sc = schema(
        "Short description",
        vec![switch("--faster", Some('f'), "speed of cmd")],
        vec![],
        None,
    );
    let actual = redact(&sc, &["program-name"], &["--faster"]).unwrap();
    assert_eq!(actual, strs(&["program-name", "--faster"]));

    let actual = redact(&sc, &["program-name"], &["-f"]).unwrap();
    assert_eq!(actual, strs(&["program-name", "-f"]));
}

#[test]
fn redact_arg_values_positional() {
    let sc = schema(
        "Short description",
        vec![],
        vec![pos("speed", Optionality::Required, ValueParser::UInt, "speed of cmd")],
        None,
    );
    let actual = redact(&sc, &["program-name"], &["5"]).unwrap();
    assert_eq!(actual, strs(&["program-name", "speed"]));
}

#[test]
fn redact_arg_values_positional_arg_name() {
    let sc = schema(
        "Short description",
        vec![],
        vec![pos("speed", Optionality::Required, ValueParser::UInt, "speed of cmd")],
        None,
    );
    let actual = redact(&sc, &["program-name"], &["5"]).unwrap();
    assert_eq!(actual, strs(&["program-name", "speed"]));
}

#[test]
fn redact_arg_values_positional_repeating() {
    let sc = schema(
        "Short description",
        vec![],
        vec![pos("speed", Optionality::Repeating, ValueParser::UInt, "speed of cmd")],
        None,
    );
    let actual = redact(&sc, &["program-name"], &["5", "6"]).unwrap();
    assert_eq!(actual, strs(&["program-name", "speed", "speed"]));
}

#[test]
fn redact_arg_values_positional_err() {
    let sc = schema(
        "Short description",
        vec![],
        vec![pos("speed", Optionality::Required, ValueParser::UInt, "speed of cmd")],
        None,
    );
    let actual = redact(&sc, &["program-name"], &[]).unwrap_err();
    assert_eq!(actual.output, "Required positional arguments not provided:\n    speed\n");
    assert_eq!(actual.status, Err(()));
}

#[test]
fn redact_arg_values_two_positional() {
    let sc = schema(
        "Short description",
        vec![],
        vec![
            pos("speed", Optionality::Required, ValueParser::UInt, "speed of cmd"),
            pos("direction", Optionality::Required, ValueParser::Text, "direction"),
        ],
        None,
    );
    let actual = redact(&sc, &["program-name"], &["5", "north"]).unwrap();
    assert_eq!(actual, strs(&["program-name", "speed", "direction"]));
}

#[test]
fn redact_arg_values_positional_option() {
    let sc = schema(
        "Short description",
        vec![opt("--direction", None, "direction", Optionality::Required, ValueParser::Text, "direction")],
        vec![pos("speed", Optionality::Required, ValueParser::UInt, "speed of cmd")],
        None,
    );
    let actual = redact(&sc, &["program-name"], &["5", "--direction", "north"]).unwrap();
    assert_eq!(actual, strs(&["program-name", "speed", "--direction"]));
}

#[test]
fn redact_arg_values_positional_optional_option() {
    let sc = schema(
        "Short description",
        vec![opt("--direction", None, "direction", Optionality::Optional, ValueParser::Text, "direction")],
        vec![pos("speed", Optionality::Required, ValueParser::UInt, "speed of cmd")],
        None,
    );
    let actual = redact(&sc, &["program-name"], &["5"]).unwrap();
    assert_eq!(actual, strs(&["program-name", "speed"]));
}

fn means_subcommand_schema() -> HelpInfo {
    let walking = schema(
        "Short description",
        vec![opt("--music", None, "music", Optionality::Required, ValueParser::Text, "a song to listen to")],
        vec![],
        None,
    );
    let biking = schema("Short description", vec![], vec![], None);
    let driving = schema("short description", vec![], vec![], None);
    schema(
        "Short description",
        vec![],
        vec![pos("speed", Optionality::Required, ValueParser::UInt, "speed of cmd")],
        subs(vec![
            sub("walking", "Short description", walking),
            sub("biking", "Short description", biking),
            sub("driving", "short description", driving),
        ]),
    )
}

#[test]
fn redact_arg_values_subcommand() {
    let actual = redact(&means_subcommand_schema(), &["program-name"], &["5", "walking", "--music", "Bach"])
        .unwrap();
    assert_eq!(actual, strs(&["program-name", "speed", "walking", "--music"]));
}

#[test]
fn redact_arg_values_subcommand_with_space_in_name() {
    let walking = schema(
        "Short description",
        vec![opt("--music", None, "music", Optionality::Required, ValueParser::Text, "a song to listen to")],
        vec![],
        None,
    );
    let biking = schema("Short description", vec![], vec![], None);
    let sc = schema(
        "Short description",
        vec![],
        vec![pos("speed", Optionality::Required, ValueParser::UInt, "speed of cmd")],
        subs(vec![
            sub("has space", "Short description", walking),
            sub("biking", "Short description", biking),
        ]),
    );
    let actual = redact(&sc, &["program-name"], &["5", "has space", "--music", "Bach"]).unwrap();
    assert_eq!(actual, strs(&["program-name", "speed", "has space", "--music"]));
}

#[test]
fn redact_arg_values_produces_help() {
    let sc = schema(
        "Woot",
        vec![opt("--n", Some('n'), "n", Optionality::Repeating, ValueParser::Text, "fooey")],
        vec![],
        None,
    );
    let e = redact(&sc, &["program-name"], &["--help"]).unwrap_err();
    assert_eq!(
        e.output,
        r###"Usage: program-name [-n <n...>]

Woot

Options:
  -n, --n           fooey
  --help, help      display usage information
"###,
    );
    assert_eq!(e.status, Ok(()));
}

#[test]
fn redact_arg_values_produces_errors_with_bad_arguments() {
    let sc = schema(
        "Woot",
        vec![opt("--n", Some('n'), "n", Optionality::Required, ValueParser::Text, "fooey")],
        vec![],
        None,
    );
    let e = redact(&sc, &["program-name"], &["--n"]).unwrap_err();
    assert_eq!(e.output, "No value provided for option '--n'.\n");
    assert_eq!(e.status, Err(()));
}

#[test]
fn redact_arg_values_does_not_warn_if_used() {
    let sc = schema(
        "Short description",
        vec![],
        vec![pos("speed", Optionality::Required, ValueParser::UInt, "speed of cmd")],
        None,
    );
    let p = argh::parse_struct_args(&strs(&["program-name"]), &strs(&["5"]), &sc).unwrap();
    assert_eq!(argh::parse_u64(&p.positionals[0][0]).unwrap(), 5);

    let actual = redact(&sc, &["program-name"], &["5"]).unwrap();
    assert_eq!(actual, strs(&["program-name", "speed"]));
}

#[test]
fn subcommand_does_not_panic() {
    let one = schema(
        "First subcommand.",
        vec![],
        vec![pos("x", Optionality::Required, ValueParser::UInt, "how many x")],
        None,
    );
    let commands = vec![sub("one", "First subcommand.", one)];

    // Passing no subcommand name at all.
    let e = argh::dispatch_subcommand(&commands, &strs(&[]), &strs(&["5"])).unwrap_err();
    assert_eq!(e.output, "no subcommand name");
    assert_eq!(e.status, Err(()));

    // Passing an unknown subcommand name.
    let e = argh::dispatch_subcommand(&commands, &strs(&["fooey"]), &strs(&["5"])).unwrap_err();
    assert_eq!(e.output, "no subcommand matched");
    assert_eq!(e.status, Err(()));
}

#[test]
fn test_cmd_extraction() {
    let expected = "test_cmd";
    let path = format!("/tmp/{}", expected);
    let cmd = argh::cmd(&path, &path);
    assert_eq!(expected, cmd);
}
