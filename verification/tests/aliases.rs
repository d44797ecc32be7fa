#![allow(dead_code)]

use argh::{
    EarlyExit, HelpFieldKind, HelpFlagInfo, HelpInfo, HelpPositionalInfo, HelpSubCommandInfo,
    HelpSubCommandsInfo, Optionality, ParsedArgs, ValueParser,
};

fn s(x: &str) -> String {
    x.to_string()
}

fn strs(xs: &[&str]) -> Vec<String> {
    xs.iter().map(|x| x.to_string()).collect()
}

fn default_triggers() -> Vec<String> {
    vec![s("--help"), s("help")]
}

fn schema(
    description: &str,
    flags: Vec<HelpFlagInfo>,
    positionals: Vec<HelpPositionalInfo>,
    subcommand: Option<HelpSubCommandsInfo>,
) -> HelpInfo {
    HelpInfo {
        description: s(description),
        examples: vec![],
        notes: vec![],
        flags,
        positionals,
        subcommand,
        error_codes: vec![],
        help_triggers: default_triggers(),
    }
}

fn switch(long: &str, short: Option<char>, description: &str) -> HelpFlagInfo {
    HelpFlagInfo {
        long: s(long),
        short,
        synonyms: vec![],
        description: s(description),
        optionality: Optionality::Optional,
        kind: HelpFieldKind::Switch,
        hidden: false,
    }
}

fn opt(
    long: &str,
    short: Option<char>,
    arg_name: &str,
    optionality: Optionality,
    parser: ValueParser,
    description: &str,
) -> HelpFlagInfo {
    HelpFlagInfo {
        long: s(long),
        short,
        synonyms: vec![],
        description: s(description),
        optionality,
        kind: HelpFieldKind::Option { arg_name: s(arg_name), parser },
        hidden: false,
    }
}

fn parse(sc: &HelpInfo, cmd: &[&str], args: &[&str]) -> Result<ParsedArgs, EarlyExit> {
    argh::parse_struct_args(&strs(cmd), &strs(args), sc)
}

fn top_level_with_aliases() -> HelpInfo {
    let one = schema("First subcommand.", vec![switch("--fooey", None, "fooey")], vec![], None);
    let two = schema("Second subcommand.", vec![switch("--bar", None, "bar")], vec![], None);
    schema(
        "Top-level command.",
        vec![],
        vec![],
        Some(HelpSubCommandsInfo {
            optional: false,
            commands: vec![
                HelpSubCommandInfo {
                    name: s("one"),
                    short: Some(s("o")),
                    synonyms: vec![],
                    description: s("First subcommand."),
                    info: one,
                },
                HelpSubCommandInfo {
                    name: s("two"),
                    short: None,
                    synonyms: vec![],
                    description: s("Second subcommand."),
                    info: two,
                },
            ],
            dynamic_commands: vec![],
        }),
    )
}

#[test]
fn test_short_alias_dispatch() {
    // Test with full name "one"
    let actual = parse(&top_level_with_aliases(), &["cmd"], &["one", "--fooey"])
        .expect("failed parsing 'one'");
    let nested = actual.subcommand.expect("missing subcommand");
    assert_eq!(nested.name, "one");
    assert_eq!(nested.args.flags[0].count, 1);

    // Test with short alias "o"
    let actual_short = parse(&top_level_with_aliases(), &["cmd"], &["o", "--fooey"])
        .expect("failed parsing 'o'");
    let nested = actual_short.subcommand.expect("missing subcommand");
    assert_eq!(nested.name, "one");
    assert_eq!(nested.args.flags[0].count, 1);
}

#[test]
fn test_short_alias_redaction() {
    let redacted = argh::redact_arg_values(
        &strs(&["cmd"]),
        &strs(&["o", "--fooey"]),
        &top_level_with_aliases(),
    )
    .expect("redaction failed");
    assert!(!redacted.is_empty());
}

#[test]
fn test_no_short_alias_for_two() {
    let res = parse(&top_level_with_aliases(), &["cmd"], &["t", "--bar"]);
    assert!(res.is_err());
}

#[test]
fn test_subcommand_short_help() {
    let early_exit = parse(&top_level_with_aliases(), &["cmd"], &["help"]).unwrap_err();
    let output = early_exit.output;

    // Check that 'one' has its short name 'o'
    assert!(output.contains("one  o"), "Help output should contain 'one  o'");
    // Check that 'two' does NOT have a short name (it should just be 'two')
    assert!(output.contains("two "), "Help output should contain 'two '");
    assert!(!output.contains("two  t"), "Help output should NOT contain 'two  t'");

    let expected_part = "  one  o            First subcommand.
  two               Second subcommand.";
    assert!(
        output.contains(expected_part),
        "Help output did not match expected subcommand list formatting. Got:
{}",
        output
    );
}

#[test]
fn test_subcommand_short_help_own() {
    // Invoke via full name
    let early_exit_full = parse(&top_level_with_aliases(), &["cmd"], &["one", "help"]).unwrap_err();
    assert!(
        early_exit_full.output.contains("Usage: cmd one [--fooey]"),
        "Usage should be 'cmd one ...'"
    );

    // Invoke via short name
    let early_exit_short = parse(&top_level_with_aliases(), &["cmd"], &["o", "help"]).unwrap_err();
    assert!(
        early_exit_short.output.contains("Usage: cmd one [--fooey]"),
        "Usage should still be 'cmd one ...' even if 'o' was used"
    );

    assert_eq!(early_exit_full.output, early_exit_short.output);
}

#[test]
fn test_subcommand_synonyms() {
    let one = schema(
        "First subcommand.",
        vec![opt("--x", None, "x", Optionality::Required, ValueParser::UInt, "how many x")],
        vec![],
        None,
    );
    let top = schema(
        "Top-level command.",
        vec![],
        vec![],
        Some(HelpSubCommandsInfo {
            optional: false,
            commands: vec![HelpSubCommandInfo {
                name: s("one"),
                short: None,
                synonyms: strs(&["uno", "eins"]),
                description: s("First subcommand."),
                info: one,
            }],
            dynamic_commands: vec![],
        }),
    );

    for alias in &["one", "uno", "eins"] {
        let p = parse(&top, &["cmdname"], &[alias, "--x", "2"]).expect("sc alias");
        let nested = p.subcommand.expect("missing subcommand");
        assert_eq!(nested.name, "one");
        assert_eq!(argh::parse_u64(&nested.args.flags[0].values[0]).unwrap(), 2);
    }
}

#[test]
fn test_option_synonyms() {
    let mut flag = opt("--foo", None, "foo", Optionality::Required, ValueParser::Text, "foo option");
    flag.synonyms = strs(&["--bar", "--baz"]);
    let sc = schema("Command with option synonyms.", vec![flag], vec![], None);

    for alias in &["--foo", "--bar", "--baz"] {
        let p = parse(&sc, &["cmd"], &[alias, "value"]).unwrap();
        assert_eq!(p.flags[0].values, strs(&["value"]));
    }
}

#[test]
fn test_switch_synonyms() {
    let mut flag = switch("--foo", None, "foo switch");
    flag.synonyms = strs(&["--bar", "--baz"]);
    let sc = schema("Command with switch synonyms.", vec![flag], vec![], None);

    for alias in &["--foo", "--bar", "--baz"] {
        let p = parse(&sc, &["cmd"], &[alias]).unwrap();
        assert_eq!(p.flags[0].count, 1);
    }
}

#[test]
fn lib_repeating() {
    let sc = schema(
        "Woot",
        vec![opt("--n", Some('n'), "n", Optionality::Repeating, ValueParser::Text, "fooey")],
        vec![],
        None,
    );
    let e = parse(&sc, &["test_arg_0"], &["--help"]).unwrap_err();
    e.status.expect("help returned an error");
    assert_eq!(
        e.output,
        r###"Usage: test_arg_0 [-n <n...>]

Woot

Options:
  -n, --n           fooey
  --help, help      display usage information
"###,
    );
}
