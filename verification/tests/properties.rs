#![allow(dead_code)]

use argh::{
    CommandInfo, EarlyExit, Flag, FromArgValue, HelpFieldKind, HelpFlagInfo, HelpInfo,
    HelpPositionalInfo, HelpSubCommandInfo, HelpSubCommandsInfo, Optionality, ParsedArgs,
    ValueParser,
};

fn s(x: &str) -> String {
    x.to_string()
}

fn strs(xs: &[&str]) -> Vec<String> {
    xs.iter().map(|x| x.to_string()).collect()
}

fn default_triggers() -> Vec<String> {
    vec![s("--help"), s("help")]
}

fn schema(
    description: &str,
    flags: Vec<HelpFlagInfo>,
    positionals: Vec<HelpPositionalInfo>,
    subcommand: Option<HelpSubCommandsInfo>,
) -> HelpInfo {
    HelpInfo {
        description: s(description),
        examples: vec![],
        notes: vec![],
        flags,
        positionals,
        subcommand,
        error_codes: vec![],
        help_triggers: default_triggers(),
    }
}

fn switch(long: &str, short: Option<char>, description: &str) -> HelpFlagInfo {
    HelpFlagInfo {
        long: s(long),
        short,
        synonyms: vec![],
        description: s(description),
        optionality: Optionality::Optional,
        kind: HelpFieldKind::Switch,
        hidden: false,
    }
}

fn opt(
    long: &str,
    short: Option<char>,
    arg_name: &str,
    optionality: Optionality,
    parser: ValueParser,
    description: &str,
) -> HelpFlagInfo {
    HelpFlagInfo {
        long: s(long),
        short,
        synonyms: vec![],
        description: s(description),
        optionality,
        kind: HelpFieldKind::Option { arg_name: s(arg_name), parser },
        hidden: false,
    }
}

fn pos(name: &str, optionality: Optionality, parser: ValueParser, description: &str) -> HelpPositionalInfo {
    HelpPositionalInfo {
        name: s(name),
        description: s(description),
        optionality,
        hidden: false,
        parser,
    }
}

fn parse(sc: &HelpInfo, cmd: &[&str], args: &[&str]) -> Result<ParsedArgs, EarlyExit> {
    argh::parse_struct_args(&strs(cmd), &strs(args), sc)
}

#[test]
fn zero_tokens_with_only_optional_fields_succeed() {
    let sc = schema(
        "All optional.",
        vec![
            switch("--jump", Some('j'), "a switch"),
            opt("--height", None, "height", Optionality::Optional, ValueParser::UInt, "a height"),
        ],
        vec![pos("rest", Optionality::Repeating, ValueParser::Text, "the rest")],
        None,
    );
    let p = parse(&sc, &["cmd"], &[]).expect("all-optional schema must accept zero tokens");
    assert_eq!(p.flags[0].count, 0);
    assert!(p.flags[1].values.is_empty());
    assert!(p.positionals[0].is_empty());
    assert!(p.subcommand.is_none());
}

#[test]
fn missing_requirements_listed_in_declaration_order() {
    let sc = schema(
        "Many required things.",
        vec![
            opt("--alpha", None, "alpha", Optionality::Required, ValueParser::Text, "first"),
            opt("--beta", None, "beta", Optionality::Optional, ValueParser::Text, "second"),
            opt("--gamma", None, "gamma", Optionality::Required, ValueParser::Text, "third"),
        ],
        vec![
            pos("one", Optionality::Required, ValueParser::Text, "first"),
            pos("two", Optionality::Required, ValueParser::Text, "second"),
        ],
        None,
    );
    let e = parse(&sc, &["cmd"], &["--beta", "x"]).unwrap_err();
    assert_eq!(
        e.output,
        "Required positional arguments not provided:\n    one\n    two\nRequired options not provided:\n    --alpha\n    --gamma\n",
    );
    assert!(e.status.is_err());
}

#[test]
fn help_output_equals_direct_synthesis() {
    let sc = schema(
        "Round and round.",
        vec![switch("--x", None, "an x")],
        vec![pos("thing", Optionality::Optional, ValueParser::Text, "a thing")],
        None,
    );
    let direct = sc.help(&strs(&["prog", "nested"]));
    let e = parse(&sc, &["prog", "nested"], &["--help"]).unwrap_err();
    assert_eq!(e.status, Ok(()));
    assert_eq!(e.output, direct);
}

#[test]
fn lookup_same_slot_for_all_names() {
    let mut flag = opt("--foo", Some('f'), "foo", Optionality::Required, ValueParser::Text, "foo");
    flag.synonyms = strs(&["--bar"]);
    let sc = schema(
        "Aliases fill one slot.",
        vec![switch("--other", None, "another flag"), flag],
        vec![],
        None,
    );
    for alias in &["--foo", "-f", "--bar"] {
        let p = parse(&sc, &["cmd"], &[alias, "v"]).unwrap();
        assert_eq!(p.flags[1].values, strs(&["v"]));
        assert!(p.flags[0].count == 0);
    }
}

#[test]
fn repeating_positional_absorbs_in_order() {
    let sc = schema(
        "Absorbing.",
        vec![],
        vec![
            pos("a", Optionality::Required, ValueParser::UInt, "first"),
            pos("b", Optionality::Repeating, ValueParser::Text, "rest"),
        ],
        None,
    );
    let p = parse(&sc, &["cmd"], &["5", "x", "y"]).unwrap();
    assert_eq!(argh::parse_u64(&p.positionals[0][0]).unwrap(), 5);
    assert_eq!(p.positionals[1], strs(&["x", "y"]));
}

#[test]
fn greedy_positional_takes_flag_shaped_tokens_verbatim() {
    let sc = schema(
        "Greedy.",
        vec![
            switch("--b", None, "a switch"),
            opt("--c", None, "c", Optionality::Optional, ValueParser::Text, "an option"),
        ],
        vec![
            pos("a", Optionality::Required, ValueParser::UInt, "first"),
            pos("d", Optionality::Greedy, ValueParser::Text, "the rest"),
        ],
        None,
    );
    let p = parse(&sc, &["cmd"], &["5", "foo", "bar", "--c", "hi"]).unwrap();
    assert_eq!(argh::parse_u64(&p.positionals[0][0]).unwrap(), 5);
    assert_eq!(p.flags[0].count, 0);
    assert!(p.flags[1].values.is_empty());
    assert_eq!(p.positionals[1], strs(&["foo", "bar", "--c", "hi"]));
}

#[test]
fn separator_forces_positional_content() {
    let sc = schema(
        "Separator.",
        vec![switch("--flag", None, "a switch")],
        vec![pos("strs", Optionality::Repeating, ValueParser::Text, "strings")],
        None,
    );
    let p = parse(&sc, &["cmd"], &["--", "a", "-b", "--flag"]).unwrap();
    assert_eq!(p.positionals[0], strs(&["a", "-b", "--flag"]));
    assert_eq!(p.flags[0].count, 0);
}

#[test]
fn example_end_to_end() {
    let sc = schema(
        "Reach new heights.",
        vec![
            switch("--jump", Some('j'), "whether or not to jump"),
            opt("--height", None, "height", Optionality::Required, ValueParser::UInt, "how high"),
            opt("--pilot", None, "pilot", Optionality::Optional, ValueParser::Text, "the pilot"),
        ],
        vec![],
        None,
    );
    let p = parse(&sc, &["cmd"], &["-j", "--height", "5"]).unwrap();
    assert_eq!(p.flags[0].count, 1);
    assert_eq!(argh::parse_u64(&p.flags[1].values[0]).unwrap(), 5);
    assert!(p.flags[2].values.is_empty());

    let e = parse(&sc, &["cmd"], &[]).unwrap_err();
    assert_eq!(e.output, "Required options not provided:\n    --height\n");
    assert!(e.status.is_err());
}

#[test]
fn unrecognized_flag_is_reported() {
    let sc = schema("Nothing.", vec![switch("--x", None, "x")], vec![], None);
    let e = parse(&sc, &["cmd"], &["--nope"]).unwrap_err();
    assert_eq!(e.output, "Unrecognized argument: --nope\n");
}

#[test]
fn duplicate_scalar_option_is_reported() {
    let sc = schema(
        "One only.",
        vec![opt("--n", None, "n", Optionality::Required, ValueParser::UInt, "n")],
        vec![],
        None,
    );
    let e = parse(&sc, &["cmd"], &["--n", "5", "--n", "6"]).unwrap_err();
    assert_eq!(e.output, "Error parsing option '--n' with value '6': duplicate values provided\n");
}

#[test]
fn coercion_failures_name_the_reason() {
    let sc = schema(
        "Typed.",
        vec![opt("--n", None, "n", Optionality::Required, ValueParser::UInt, "n")],
        vec![],
        None,
    );
    let e = parse(&sc, &["cmd"], &["--n", ""]).unwrap_err();
    assert_eq!(
        e.output,
        "Error parsing option '--n' with value '': cannot parse integer from empty string\n",
    );
    let e = parse(&sc, &["cmd"], &["--n", "18446744073709551616"]).unwrap_err();
    assert_eq!(
        e.output,
        "Error parsing option '--n' with value '18446744073709551616': number too large to fit in target type\n",
    );
}

#[test]
fn decimal_parsing_matches_expected_values() {
    assert_eq!(argh::parse_u64("0").unwrap(), 0);
    assert_eq!(argh::parse_u64("+5").unwrap(), 5);
    assert_eq!(argh::parse_u64("18446744073709551615").unwrap(), u64::MAX);
    assert_eq!(
        argh::parse_u64("18446744073709551616").unwrap_err(),
        "number too large to fit in target type"
    );
    assert_eq!(argh::parse_u64("").unwrap_err(), "cannot parse integer from empty string");
    assert_eq!(argh::parse_u64("1x").unwrap_err(), "invalid digit found in string");
    assert_eq!(argh::parse_i64("-9223372036854775808").unwrap(), i64::MIN);
    assert_eq!(argh::parse_i64("9223372036854775807").unwrap(), i64::MAX);
    assert_eq!(
        argh::parse_i64("-9223372036854775809").unwrap_err(),
        "number too small to fit in target type"
    );
    assert_eq!(argh::parse_i64("-12").unwrap(), -12);
}

#[test]
fn decimal_formatting_matches_expected_values() {
    assert_eq!(argh::fmt_u64(0), "0");
    assert_eq!(argh::fmt_u64(12034), "12034");
    assert_eq!(argh::fmt_u64(u64::MAX), "18446744073709551615");
    assert_eq!(argh::fmt_i64(-123), "-123");
    assert_eq!(argh::fmt_i64(7), "7");
    assert_eq!(argh::fmt_i64(i64::MIN), "-9223372036854775808");
}

#[test]
fn from_arg_value_respects_type_bounds() {
    assert_eq!(<u8 as FromArgValue>::from_arg_value("255").unwrap(), 255);
    assert_eq!(
        <u8 as FromArgValue>::from_arg_value("256").unwrap_err(),
        "number too large to fit in target type"
    );
    assert_eq!(<usize as FromArgValue>::from_arg_value("5").unwrap(), 5);
    assert_eq!(<String as FromArgValue>::from_arg_value("woot").unwrap(), "woot");
    assert_eq!(<i64 as FromArgValue>::from_arg_value("-3").unwrap(), -3);
}

#[test]
fn flag_receivers_count_occurrences() {
    let mut b = <bool as Flag>::default();
    assert!(!b);
    b.set_flag();
    assert!(b);

    let mut n = <u64 as Flag>::default();
    n.set_flag();
    n.set_flag();
    assert_eq!(n, 2);

    let mut m = u64::MAX;
    m.set_flag();
    assert_eq!(m, u64::MAX);

    let mut i = <i64 as Flag>::default();
    i.set_flag();
    assert_eq!(i, 1);
}

#[test]
fn message_builders_render_exactly() {
    assert_eq!(argh::unrecognized_argument("x"), "Unrecognized argument: x\n");
    assert_eq!(argh::unrecognized_arg("7"), "Unrecognized argument: 7\n");
    assert_eq!(argh::no_value_provided("--msg"), "No value provided for option '--msg'.\n");
    assert_eq!(
        argh::option_parse_error("--n", "x", "invalid digit found in string"),
        "Error parsing option '--n' with value 'x': invalid digit found in string\n",
    );
    assert_eq!(
        argh::positional_parse_error("n", "x", "invalid digit found in string"),
        "Error parsing positional argument 'n' with value 'x': invalid digit found in string\n",
    );
    assert_eq!(
        argh::expected_subcommand(&strs(&["a", "b"])),
        "Expected one of the following subcommands: a, b\n",
    );
}

#[test]
fn missing_requirements_builder_renders_sections() {
    let mut mr = argh::MissingRequirements::new();
    assert!(mr.err_on_any().is_ok());
    mr.missing_positional_arg("speed");
    mr.missing_option("--direction");
    mr.missing_subcommands(strs(&["walk", "bike"]));
    let msg = mr.err_on_any().unwrap_err();
    assert_eq!(
        msg,
        "Required positional arguments not provided:\n    speed\nRequired options not provided:\n    --direction\nOne of the following subcommands must be present:\n    help\n    walk\n    bike\n",
    );
}

#[test]
fn prepend_help_adds_the_keyword() {
    let out = argh::prepend_help(&strs(&["a", "b"]));
    assert_eq!(out, strs(&["help", "a", "b"]));
}

#[test]
fn print_subcommands_lists_each_command() {
    let out = argh::print_subcommands(&vec![
        CommandInfo { name: s("list"), description: s("list all the classes.") },
        CommandInfo { name: s("add"), description: s("add students to a class.") },
    ]);
    assert_eq!(out, "\n  list              list all the classes.\n  add               add students to a class.");
}

#[test]
fn write_description_pads_and_wraps() {
    let mut out = String::new();
    argh::write_description(
        &mut out,
        &CommandInfo { name: s("bare"), description: s("") },
    );
    assert_eq!(out, "\n  bare");

    let mut out = String::new();
    argh::write_description(
        &mut out,
        &CommandInfo {
            name: s("-f, --force"),
            description: s(
                "force, ignore minor errors. This description is so long that it wraps to the next line.",
            ),
        },
    );
    assert_eq!(
        out,
        "\n  -f, --force       force, ignore minor errors. This description is so long that\n                    it wraps to the next line.",
    );
}

#[test]
fn escape_json_handles_quotes_and_newlines() {
    assert_eq!(argh::escape_json("a\"b\nc"), "a\\\"b\\nc");
    assert_eq!(argh::escape_json("plain"), "plain");
}

#[test]
fn help_json_renders_the_structured_form() {
    let sc = schema(
        "Top level.",
        vec![switch("--verbose", None, "show verbose output")],
        vec![],
        None,
    );
    let out = sc.help_json_from_args(&strs(&["test_arg_0"]));
    let mut expected = String::new();
    expected.push_str("{\n\"name\": \"test_arg_0\",\n");
    expected.push_str("\"usage\": \"test_arg_0 [--verbose]\",\n");
    expected.push_str("\"description\": \"Top level.\",\n");
    expected.push_str("\"flags\": [{\"short\": \"\", \"long\": \"--verbose\", \"description\": \"show verbose output\", \"arg_name\": \"\", \"optionality\": \"optional\"},\n");
    expected.push_str("{\"short\": \"\", \"long\": \"--help\", \"description\": \"display usage information\", \"arg_name\": \"\", \"optionality\": \"optional\"}],\n");
    expected.push_str("\"positional\": [],\n");
    expected.push_str("\"examples\": \"\",\n");
    expected.push_str("\"notes\": \"\",\n");
    expected.push_str("\"error_codes\": [],\n");
    expected.push_str("\"subcommands\": []\n");
    expected.push_str("}\n");
    assert_eq!(out, expected);
}

#[test]
fn help_json_recurses_into_subcommands() {
    let nested = schema(
        "Go one level down.",
        vec![],
        vec![pos("root", Optionality::Required, ValueParser::Text, "the \"root\" position.")],
        None,
    );
    let sc = schema(
        "Top level with \"subcommands\".",
        vec![],
        vec![],
        Some(HelpSubCommandsInfo {
            optional: false,
            commands: vec![HelpSubCommandInfo {
                name: s("one"),
                short: None,
                synonyms: vec![],
                description: s("Go one level down."),
                info: nested,
            }],
            dynamic_commands: vec![],
        }),
    );
    let out = sc.help_json_from_args(&strs(&["test_arg_0"]));
    assert!(out.contains("\"description\": \"Top level with \\\"subcommands\\\".\""));
    assert!(out.contains("\"name\": \"one\""));
    assert!(out.contains("\"usage\": \"test_arg_0 one <root>\""));
    assert!(out.contains("{\"name\": \"root\", \"description\": \"the \\\"root\\\" position.\", \"optionality\": \"required\"}"));
}

#[test]
fn cmd_extracts_the_file_name() {
    assert_eq!(argh::cmd("fallback", "/usr/bin/tool"), "tool");
    assert_eq!(argh::cmd("fallback", "bare"), "bare");
    assert_eq!(argh::cmd("fallback", "/ends/with/"), "fallback");
    assert_eq!(argh::cmd("fallback", "/odd/.."), "fallback");
}

#[test]
fn check_value_accepts_and_rejects() {
    assert!(argh::check_value(ValueParser::Text, "anything").is_ok());
    assert!(argh::check_value(ValueParser::UInt, "17").is_ok());
    assert_eq!(
        argh::check_value(ValueParser::UInt, "x").unwrap_err(),
        "invalid digit found in string"
    );
    assert!(argh::check_value(ValueParser::Int, "-17").is_ok());
}

#[test]
fn help_takes_priority_over_missing_requirements() {
    let sc = schema(
        "Help first.",
        vec![opt("--req", None, "req", Optionality::Required, ValueParser::Text, "required")],
        vec![],
        None,
    );
    let e = parse(&sc, &["cmd"], &["--help"]).unwrap_err();
    assert_eq!(e.status, Ok(()));
    assert!(e.output.starts_with("Usage: cmd"));
}

#[test]
fn optional_subcommand_may_be_absent() {
    let nested = schema("Nested.", vec![], vec![], None);
    let sc = schema(
        "Maybe nested.",
        vec![],
        vec![],
        Some(HelpSubCommandsInfo {
            optional: true,
            commands: vec![HelpSubCommandInfo {
                name: s("one"),
                short: None,
                synonyms: vec![],
                description: s("Nested."),
                info: nested,
            }],
            dynamic_commands: vec![],
        }),
    );
    let p = parse(&sc, &["cmd"], &[]).unwrap();
    assert!(p.subcommand.is_none());
    let e = parse(&sc, &["cmd"], &["--help"]).unwrap_err();
    assert!(e.output.contains("Usage: cmd [<command>] [<args>]"));
}

#[test]
fn dispatch_subcommand_parses_the_named_entry() {
    let one = schema(
        "First subcommand.",
        vec![opt("--x", None, "x", Optionality::Required, ValueParser::UInt, "how many x")],
        vec![],
        None,
    );
    let two = schema("Second subcommand.", vec![], vec![], None);
    let commands = vec![
        HelpSubCommandInfo {
            name: s("one"),
            short: None,
            synonyms: vec![],
            description: s("First subcommand."),
            info: one,
        },
        HelpSubCommandInfo {
            name: s("two"),
            short: None,
            synonyms: vec![],
            description: s("Second subcommand."),
            info: two,
        },
    ];
    let (idx, p) = argh::dispatch_subcommand(&commands, &strs(&["prog", "one"]), &strs(&["--x", "2"]))
        .expect("dispatch failed");
    assert_eq!(idx, 0);
    assert_eq!(argh::parse_u64(&p.flags[0].values[0]).unwrap(), 2);
}
