use spongecrab::cli::{DEFAULT_NAME, EXAMPLE_SCRIPT, GENERATED_BOILERPLATE, OWN_USAGE};
use spongecrab::{ArgumentKind, CliBuilder, Error, ErrorKind};

fn cli(args: &[&str]) -> CliBuilder {
    CliBuilder::new(args).expect("new")
}

fn strings(list: &[&str]) -> Vec<String> {
    list.iter().map(|t| t.to_string()).collect()
}

fn output(args: &[&str]) -> String {
    cli(args).parse().expect("parse")
}

fn failure(args: &[&str]) -> Error {
    cli(args).parse().expect_err("failure")
}

#[test]
fn reads_every_switch() {
    let c = cli(&[
        "app", "--name", "n", "--about", "a", "-p", "first", "--positional", "second", "-o", "o1",
        "--optional", "o2", "-O", "O1", "--option", "O2", "-f", "f1", "--flag", "f2", "-e", "e",
        "-P", "pre_", "--", "x", "-p", "--",
    ]);
    assert_eq!(c.name, "n");
    assert_eq!(c.about, Some("a".to_string()));
    assert_eq!(c.positional, strings(&["first", "second"]));
    assert_eq!(c.optional, strings(&["o1", "o2"]));
    assert_eq!(c.option, strings(&["O1", "O2"]));
    assert_eq!(c.flag, strings(&["f1", "f2"]));
    assert_eq!(c.collect, None);
    assert_eq!(c.collect_required, None);
    assert_eq!(c.extra, Some("e".to_string()));
    assert_eq!(c.prefix, Some("pre_".to_string()));
    assert!(!c.generate);
    assert!(!c.example);
    assert_eq!(c.input, strings(&["x", "-p", "--"]));
}

#[test]
fn reads_collectors_and_modes() {
    let c = cli(&["app", "-c", "any", "-G"]);
    assert_eq!(c.collect, Some("any".to_string()));
    assert!(c.generate);
    let c = cli(&["app", "--collect+", "some", "--example", "--generate"]);
    assert_eq!(c.collect_required, Some("some".to_string()));
    assert!(c.generate);
    assert!(c.example);
    let c = cli(&["app", "-C", "some", "--collect", "any"]);
    assert_eq!(c.collect, Some("any".to_string()));
    assert_eq!(c.collect_required, Some("some".to_string()));
}

#[test]
fn nothing_given_gives_the_defaults() {
    for args in [&["app"][..], &[][..], &["app", "--"][..]] {
        let c = cli(args);
        assert_eq!(c.name, "myscript");
        assert_eq!(c.name, DEFAULT_NAME);
        assert_eq!(c.about, None);
        assert!(c.positional.is_empty());
        assert!(c.optional.is_empty());
        assert!(c.option.is_empty());
        assert!(c.flag.is_empty());
        assert_eq!(c.collect, None);
        assert_eq!(c.collect_required, None);
        assert_eq!(c.extra, None);
        assert_eq!(c.prefix, None);
        assert!(!c.generate);
        assert!(!c.example);
        assert!(c.input.is_empty());
    }
}

#[test]
fn a_repeated_single_switch_keeps_the_last_value() {
    let c = cli(&["app", "--name", "one", "--name", "two"]);
    assert_eq!(c.name, "two");
}

#[test]
fn the_first_token_is_the_program_name() {
    let c = cli(&["--generate"]);
    assert!(!c.generate);
    let c = cli(&["app", "--generate"]);
    assert!(c.generate);
}

#[test]
fn own_command_line_errors() {
    let e = CliBuilder::new(&["app", "--bogus"]).expect_err("unknown");
    assert_eq!(e.kind, ErrorKind::UnknownArgument);
    assert_eq!(e.subject, "--bogus");
    let e = CliBuilder::new(&["app", "stray", "--", "x"]).expect_err("stray");
    assert_eq!(e.kind, ErrorKind::UnknownArgument);
    assert_eq!(e.subject, "stray");
    let e = CliBuilder::new(&["app", "-p"]).expect_err("missing");
    assert_eq!(e.kind, ErrorKind::MissingRequiredArgument);
    assert_eq!(e.subject, "positional");
    let e = CliBuilder::new(&["app", "-C", "--", "x"]).expect_err("missing");
    assert_eq!(e.kind, ErrorKind::MissingRequiredArgument);
    assert_eq!(e.subject, "collect+");
    for args in [&["app", "-p", "x", "--help"][..], &["app", "--bogus", "-h"][..], &["app", "-h", "--"][..]] {
        let e = CliBuilder::new(args).expect_err("help");
        assert_eq!(e.kind, ErrorKind::HelpRequested);
        assert_eq!(e.subject, OWN_USAGE);
    }
    assert!(CliBuilder::new(&["app", "--", "--help"]).is_ok());
}

#[test]
fn example_and_generate_print_their_scripts() {
    assert_eq!(output(&["app", "--example"]), EXAMPLE_SCRIPT);
    assert_eq!(output(&["app", "--generate"]), GENERATED_BOILERPLATE);
    assert_eq!(output(&["app", "-G", "-c", "a", "-C", "b", "--", "--bogus"]), GENERATED_BOILERPLATE);
    assert_eq!(output(&["app", "--example", "--generate"]), EXAMPLE_SCRIPT);
    assert!(GENERATED_BOILERPLATE.contains("CLI=$(spongecrab --name \"$APP_NAME\" --about \"$ABOUT\" \"${CLI[@]}\" -- \"$@\") || exit 1"));
    assert!(GENERATED_BOILERPLATE.contains("    -o \"arg2;Optional positional argument;<default value>\"\n"));
    assert!(EXAMPLE_SCRIPT.contains("eval \"$CLI\" || exit 1"));
}

#[test]
fn the_skeleton_parses_the_way_it_says() {
    let out = output(&[
        "app", "-p", "arg1;Positional argument", "-o",
        "arg2;Optional positional argument;<default value>", "-O", "option;Optional argument;;o",
        "-f", "flag;Optional flag argument;;f", "-e", "extra;Optional extra arguments after '--'",
        "--", "neo", "greetings", "-o", "follow the white rabbit", "-f",
    ]);
    assert_eq!(
        out,
        "arg1='neo'\narg2='greetings'\noption='follow the white rabbit'\nflag='1'\nextra=()"
    );
}

#[test]
fn the_example_script_declares_what_it_uses() {
    let out = output(&[
        "app", "-p", "name;Name to greet", "-o", "greetings;Greeting to use;Hello", "-O",
        "notice;Print a notice after the greeting;;n", "-f", "polite;Be polite;;p", "--", "neo",
        "greetings", "-n", "follow the white rabbit", "-p",
    ]);
    assert_eq!(
        out,
        "name='neo'\ngreetings='greetings'\nnotice='follow the white rabbit'\npolite='1'"
    );
    let out = output(&["app", "-p", "name", "-o", "greetings;;Hello", "--", "neo"]);
    assert_eq!(out, "name='neo'\ngreetings='Hello'");
}

#[test]
fn the_prefix_starts_every_variable() {
    let out = output(&["app", "-P", "ARG_", "-p", "pos-arg", "-f", "flag-arg", "--", "v"]);
    assert_eq!(out, "ARG_pos_arg='v'\nARG_flag_arg=''");
}

#[test]
fn two_collectors_fail_before_any_token_is_looked_at() {
    for input in [&[][..], &["x"][..], &["--bogus"][..], &["--help"][..]] {
        let mut args = vec!["app", "-c", "any", "-C", "some", "--"];
        args.extend_from_slice(input);
        let e = failure(&args);
        assert_eq!(
            e.kind,
            ErrorKind::GrammarConflict(ArgumentKind::CollectOptional, ArgumentKind::CollectRequired)
        );
    }
}

#[test]
fn conflicts_are_reported_in_one_line() {
    let e = failure(&["app", "-c", "any", "-C", "some"]);
    assert_eq!(e.message(), "grammar conflict: optional collector and required collector: some");
    let e = failure(&["app", "-o", "maybe", "-C", "some"]);
    assert_eq!(e.message(), "grammar conflict: optional positional and required collector: some");
    let e = failure(&["app", "-o", "maybe", "-c", "any"]);
    assert_eq!(e.message(), "grammar conflict: optional positional and optional collector: any");
    let e = failure(&["app", "-O", "note;;;n", "-f", "now;;;n"]);
    assert_eq!(e.message(), "grammar conflict: named option and flag: now");
}

#[test]
fn missing_required_argument_gives_no_output() {
    let e = failure(&["app", "-p", "first", "--"]);
    assert_eq!(e.kind, ErrorKind::MissingRequiredArgument);
    assert_eq!(e.subject, "first");
    assert_eq!(e.message(), "missing required argument: first");
}

#[test]
fn unknown_argument_is_reported() {
    let e = failure(&["app", "-p", "first", "--", "x", "--bogus"]);
    assert_eq!(e.kind, ErrorKind::UnknownArgument);
    assert_eq!(e.subject, "--bogus");
    assert_eq!(e.message(), "unknown argument: --bogus");
}

#[test]
fn help_comes_back_as_an_error_with_the_usage_text() {
    let c = cli(&["app", "--name", "hello", "--about", "Says hello.", "-p", "name;Who", "--", "-h"]);
    let e = c.parse().expect_err("help");
    assert_eq!(e.kind, ErrorKind::HelpRequested);
    assert_eq!(
        e.message(),
        "Says hello.\n\nUsage: hello <name>\n  name  Who\n  -h, --help  Print help"
    );
    assert_eq!(e.subject, c.build().expect("build").usage());
}

#[test]
fn build_gives_the_grammar_of_the_descriptions() {
    let c = cli(&["app", "-p", "a;;x;y", "-O", "b;help;dflt;s", "-C", "rest", "-e", "more"]);
    let g = c.build().expect("build");
    assert_eq!(g.name, "myscript");
    assert_eq!(g.required.len(), 1);
    assert_eq!(g.required[0].default, None);
    assert_eq!(g.required[0].short, None);
    assert_eq!(g.options[0].name, "b");
    assert_eq!(g.options[0].help, "help");
    assert_eq!(g.options[0].default, Some("dflt".to_string()));
    assert_eq!(g.options[0].short, Some('s'));
    assert!(g.collector.expect("collector").required);
    assert_eq!(g.extra.expect("extra").name, "more");
}

#[test]
fn a_builder_can_be_written_by_hand() {
    let c = CliBuilder {
        name: "x".to_string(),
        about: None,
        positional: strings(&["pos1"]),
        optional: Vec::new(),
        option: strings(&["opt1"]),
        flag: Vec::new(),
        collect: None,
        collect_required: None,
        extra: None,
        prefix: None,
        generate: false,
        example: false,
        input: strings(&["valpos1", "--opt1", "valopt1"]),
    };
    assert_eq!(c, cli(&["app", "--name", "x", "-p", "pos1", "-O", "opt1", "--", "valpos1", "--opt1", "valopt1"]));
    assert_eq!(c.parse().expect("parse"), "pos1='valpos1'\nopt1='valopt1'");
}
