use spongecrab::matcher::bind;
use spongecrab::scanner::{asks_for_help, classify_token, scan, Hit, Scan, Switch, TokenKind};
use spongecrab::{
    match_tokens, parse_args, ArgValue, ArgumentDescriptor, ErrorKind, Grammar, KindGroups,
    MatchResult, Outcome,
};

fn decode_all(raws: &[&str]) -> Vec<ArgumentDescriptor> {
    raws.iter().map(|r| ArgumentDescriptor::decode(r)).collect()
}

fn grammar(
    required: &[&str],
    optional: &[&str],
    options: &[&str],
    flags: &[&str],
    collect: Option<&str>,
    collect_required: Option<&str>,
    extra: Option<&str>,
) -> Grammar {
    let groups = KindGroups {
        required: decode_all(required),
        optional: decode_all(optional),
        options: decode_all(options),
        flags: decode_all(flags),
        collect: collect.map(ArgumentDescriptor::decode),
        collect_required: collect_required.map(ArgumentDescriptor::decode),
        extra: extra.map(ArgumentDescriptor::decode),
    };
    Grammar::build("app", None, &groups).expect("build")
}

fn tokens(list: &[&str]) -> Vec<String> {
    list.iter().map(|t| t.to_string()).collect()
}

fn matched(g: &Grammar, list: &[&str]) -> MatchResult {
    match match_tokens(g, &tokens(list)) {
        Outcome::Matched(m) => m,
        other => panic!("no match: {:?}", other),
    }
}

fn failed(g: &Grammar, list: &[&str]) -> (ErrorKind, String) {
    match match_tokens(g, &tokens(list)) {
        Outcome::Failed(e) => (e.kind, e.subject),
        other => panic!("no failure: {:?}", other),
    }
}

fn value(m: &MatchResult, name: &str) -> ArgValue {
    m.get(name).expect("bound").clone()
}

fn scalar(s: &str) -> ArgValue {
    ArgValue::Scalar(s.to_string())
}

fn multi(list: &[&str]) -> ArgValue {
    ArgValue::Multi(tokens(list))
}

fn example_grammar() -> Grammar {
    grammar(
        &["name"],
        &["greet;greeting;hello"],
        &["note;notice;;n"],
        &["polite;Be polite;;p"],
        None,
        None,
        None,
    )
}

#[test]
fn classifies_tokens() {
    assert_eq!(classify_token("--"), TokenKind::Separator);
    assert_eq!(classify_token("--name"), TokenKind::Long("name".to_string()));
    assert_eq!(classify_token("--a"), TokenKind::Long("a".to_string()));
    assert_eq!(classify_token("---"), TokenKind::Long("-".to_string()));
    assert_eq!(classify_token("--name=value"), TokenKind::Long("name=value".to_string()));
    assert_eq!(classify_token("-n"), TokenKind::Short('n'));
    assert_eq!(classify_token("-5"), TokenKind::Short('5'));
    assert_eq!(classify_token("-abc"), TokenKind::Bundle);
    assert_eq!(classify_token("-"), TokenKind::Plain);
    assert_eq!(classify_token(""), TokenKind::Plain);
    assert_eq!(classify_token("value"), TokenKind::Plain);
    assert_eq!(classify_token("a--b"), TokenKind::Plain);
}

#[test]
fn scan_tells_switches_from_free_tokens() {
    let table = vec![
        Switch { long: "note".to_string(), short: Some('n'), takes_value: true },
        Switch { long: "polite".to_string(), short: Some('p'), takes_value: false },
    ];
    let r = scan(&table, &tokens(&["a", "-n", "x", "b", "--polite", "--note", "y", "--", "-p", "c"]));
    assert_eq!(
        r,
        Scan::Done {
            hits: vec![
                Hit { switch: 0, value: "x".to_string() },
                Hit { switch: 1, value: "".to_string() },
                Hit { switch: 0, value: "y".to_string() },
            ],
            free: tokens(&["a", "b"]),
            trailing: tokens(&["-p", "c"]),
        }
    );
    assert_eq!(scan(&table, &tokens(&["-h"])), Scan::Unknown("-h".to_string()));
    assert_eq!(scan(&table, &tokens(&["a", "--bogus", "-x"])), Scan::Unknown("--bogus".to_string()));
    assert_eq!(scan(&table, &tokens(&["-pn"])), Scan::Unknown("-pn".to_string()));
    assert_eq!(scan(&table, &tokens(&["--note"])), Scan::MissingValue(0));
    assert_eq!(scan(&table, &tokens(&["-n", "--polite"])), Scan::MissingValue(0));
    assert_eq!(scan(&table, &tokens(&["-n", "--"])), Scan::MissingValue(0));
    assert_eq!(
        scan(&table, &Vec::new()),
        Scan::Done { hits: Vec::new(), free: Vec::new(), trailing: Vec::new() }
    );
}

#[test]
fn help_is_asked_for_before_the_separator_only() {
    assert!(asks_for_help(&tokens(&["--help"])));
    assert!(asks_for_help(&tokens(&["-h"])));
    assert!(asks_for_help(&tokens(&["a", "--bogus", "-n", "-h", "--", "x"])));
    assert!(!asks_for_help(&tokens(&[])));
    assert!(!asks_for_help(&tokens(&["a", "--", "--help", "-h"])));
    assert!(!asks_for_help(&tokens(&["help", "h", "--helper", "-H", "---help", "-help"])));
}

#[test]
fn binds_every_kind() {
    let m = matched(&example_grammar(), &["neo", "hi", "-n", "hello-world", "-p"]);
    assert_eq!(value(&m, "name"), scalar("neo"));
    assert_eq!(value(&m, "greet"), scalar("hi"));
    assert_eq!(value(&m, "note"), scalar("hello-world"));
    assert_eq!(value(&m, "polite"), ArgValue::Bool(true));
    let names: Vec<&str> = m.entries.iter().map(|b| b.name.as_str()).collect();
    assert_eq!(names, vec!["name", "greet", "note", "polite"]);
}

#[test]
fn what_is_not_given_takes_its_default_or_is_absent() {
    let m = matched(&example_grammar(), &["neo"]);
    assert_eq!(value(&m, "name"), scalar("neo"));
    assert_eq!(value(&m, "greet"), scalar("hello"));
    assert_eq!(value(&m, "note"), ArgValue::Absent);
    assert_eq!(value(&m, "polite"), ArgValue::Bool(false));

    let g = grammar(&[], &["maybe"], &["opt;;fallback"], &[], None, None, None);
    let m = matched(&g, &[]);
    assert_eq!(value(&m, "maybe"), ArgValue::Absent);
    assert_eq!(value(&m, "opt"), scalar("fallback"));
}

#[test]
fn options_are_found_by_long_and_short_name() {
    let g = example_grammar();
    assert_eq!(value(&matched(&g, &["neo", "--note", "x"]), "note"), scalar("x"));
    assert_eq!(value(&matched(&g, &["neo", "-n", "x"]), "note"), scalar("x"));
    assert_eq!(value(&matched(&g, &["--note", "x", "neo"]), "note"), scalar("x"));
    assert_eq!(value(&matched(&g, &["--note", "x", "neo"]), "name"), scalar("neo"));
}

#[test]
fn the_last_occurrence_of_an_option_wins() {
    let g = example_grammar();
    let m = matched(&g, &["-n", "one", "neo", "--note", "two"]);
    assert_eq!(value(&m, "note"), scalar("two"));
}

#[test]
fn a_flag_is_set_wherever_it_stands() {
    let g = example_grammar();
    for list in [
        &["--polite", "neo", "hi"][..],
        &["neo", "--polite", "hi"][..],
        &["neo", "hi", "--polite"][..],
        &["-p", "neo"][..],
        &["neo", "-n", "x", "-p"][..],
        &["neo", "-p", "--polite"][..],
    ] {
        assert_eq!(value(&matched(&g, list), "polite"), ArgValue::Bool(true));
    }
    for list in [&["neo", "hi"][..], &["neo", "-n", "x"][..], &["neo"][..]] {
        assert_eq!(value(&matched(&g, list), "polite"), ArgValue::Bool(false));
    }
}

#[test]
fn a_flag_after_the_separator_is_not_a_flag() {
    let g = grammar(&[], &[], &[], &["polite;;;p"], None, None, Some("rest"));
    let m = matched(&g, &["--", "--polite", "-p"]);
    assert_eq!(value(&m, "polite"), ArgValue::Bool(false));
    assert_eq!(value(&m, "rest"), multi(&["--polite", "-p"]));
}

#[test]
fn required_positionals_are_never_absent() {
    let g = grammar(&["a", "b", "c"], &[], &["o"], &["f"], None, None, None);
    for list in [
        &["1", "2", "3"][..],
        &["--o", "v", "1", "2", "3"][..],
        &["1", "--f", "2", "--o", "v", "3"][..],
        &["1", "2", "--", "3"][..],
    ] {
        let m = matched(&g, list);
        assert_eq!(value(&m, "a"), scalar("1"));
        assert_eq!(value(&m, "b"), scalar("2"));
        assert_eq!(value(&m, "c"), scalar("3"));
    }
}

#[test]
fn missing_required_positional_names_the_first_unmet_slot() {
    let g = grammar(&["first"], &[], &[], &[], None, None, None);
    assert_eq!(failed(&g, &[]), (ErrorKind::MissingRequiredArgument, "first".to_string()));
    let g = grammar(&["a", "b", "c"], &[], &["o"], &[], None, None, None);
    assert_eq!(failed(&g, &["1"]), (ErrorKind::MissingRequiredArgument, "b".to_string()));
    assert_eq!(failed(&g, &["1", "--o", "x", "2"]), (ErrorKind::MissingRequiredArgument, "c".to_string()));
}

#[test]
fn collector_takes_what_is_left() {
    let g = grammar(&["first"], &[], &[], &["f"], Some("rest"), None, None);
    let m = matched(&g, &["1", "2", "--f", "3"]);
    assert_eq!(value(&m, "first"), scalar("1"));
    assert_eq!(value(&m, "rest"), multi(&["2", "3"]));
    assert_eq!(value(&m, "f"), ArgValue::Bool(true));
    let m = matched(&g, &["1"]);
    assert_eq!(value(&m, "rest"), multi(&[]));
}

#[test]
fn collector_takes_the_tokens_after_the_separator_when_there_is_no_extra_slot() {
    let g = grammar(&[], &[], &[], &[], Some("pos-args"), None, None);
    let m = matched(&g, &["--", "a", "b", "c"]);
    assert_eq!(value(&m, "pos-args"), multi(&["a", "b", "c"]));
    let m = matched(&g, &["x", "--", "--y", "--"]);
    assert_eq!(value(&m, "pos-args"), multi(&["x", "--y", "--"]));
}

#[test]
fn required_collector_needs_a_token() {
    let g = grammar(&["first"], &[], &[], &[], None, Some("some"), None);
    assert_eq!(failed(&g, &["1"]), (ErrorKind::MissingRequiredArgument, "some".to_string()));
    assert_eq!(failed(&g, &[]), (ErrorKind::MissingRequiredArgument, "first".to_string()));
    let m = matched(&g, &["1", "2"]);
    assert_eq!(value(&m, "some"), multi(&["2"]));
}

#[test]
fn extra_takes_the_tokens_after_the_separator_verbatim() {
    let g = grammar(&["first"], &[], &["o"], &["f"], None, None, Some("extra"));
    let m = matched(&g, &["1", "--", "--o", "-x", "--", "--help", ""]);
    assert_eq!(value(&m, "first"), scalar("1"));
    assert_eq!(value(&m, "o"), ArgValue::Absent);
    assert_eq!(value(&m, "f"), ArgValue::Bool(false));
    assert_eq!(value(&m, "extra"), multi(&["--o", "-x", "--", "--help", ""]));
    let m = matched(&g, &["1"]);
    assert_eq!(value(&m, "extra"), multi(&[]));
    assert_eq!(failed(&g, &["--", "1"]), (ErrorKind::MissingRequiredArgument, "first".to_string()));
}

#[test]
fn unknown_arguments_name_the_token() {
    let g = example_grammar();
    assert_eq!(failed(&g, &["neo", "--bogus"]), (ErrorKind::UnknownArgument, "--bogus".to_string()));
    assert_eq!(failed(&g, &["-x", "neo"]), (ErrorKind::UnknownArgument, "-x".to_string()));
    assert_eq!(failed(&g, &["neo", "-np"]), (ErrorKind::UnknownArgument, "-np".to_string()));
    assert_eq!(failed(&g, &["--note=x", "neo"]), (ErrorKind::UnknownArgument, "--note=x".to_string()));
    assert_eq!(failed(&g, &["neo", "hi", "more"]), (ErrorKind::UnknownArgument, "more".to_string()));
    assert_eq!(failed(&g, &["neo", "hi", "--", "more", "yet"]), (ErrorKind::UnknownArgument, "more".to_string()));
}

#[test]
fn an_option_without_its_value_is_missing() {
    let g = example_grammar();
    assert_eq!(failed(&g, &["neo", "--note"]), (ErrorKind::MissingRequiredArgument, "note".to_string()));
    assert_eq!(failed(&g, &["neo", "-n", "-p"]), (ErrorKind::MissingRequiredArgument, "note".to_string()));
    assert_eq!(failed(&g, &["-n", "--", "neo"]), (ErrorKind::MissingRequiredArgument, "note".to_string()));
}

#[test]
fn a_lone_hyphen_and_an_empty_token_are_values() {
    let g = example_grammar();
    let m = matched(&g, &["-", "", "--note", "-"]);
    assert_eq!(value(&m, "name"), scalar("-"));
    assert_eq!(value(&m, "greet"), scalar(""));
    assert_eq!(value(&m, "note"), scalar("-"));
}

#[test]
fn help_before_the_separator_is_a_help_request() {
    let g = example_grammar();
    for list in [&["--help"][..], &["-h"][..], &["neo", "hi", "-h"][..], &["neo", "--help", "--bogus"][..]] {
        match match_tokens(&g, &tokens(list)) {
            Outcome::HelpRequested(text) => assert_eq!(text, g.usage()),
            other => panic!("no help: {:?}", other),
        }
    }
    let g = grammar(&[], &[], &[], &[], None, None, Some("rest"));
    assert_eq!(value(&matched(&g, &["--", "--help"]), "rest"), multi(&["--help"]));
}

#[test]
fn a_help_request_is_answered_whatever_else_is_wrong() {
    let g = example_grammar();
    for list in [
        &["--bogus", "--help"][..],
        &["--note", "--help"][..],
        &["a", "b", "c", "d", "-h"][..],
        &["-h", "--", "x"][..],
    ] {
        match match_tokens(&g, &tokens(list)) {
            Outcome::HelpRequested(text) => assert_eq!(text, g.usage()),
            other => panic!("no help: {:?}", other),
        }
    }
}

#[test]
fn matching_is_repeatable() {
    let g = example_grammar();
    let list = tokens(&["neo", "-p", "--note", "x"]);
    assert_eq!(match_tokens(&g, &list), match_tokens(&g, &list));
}

#[test]
fn parse_args_reports_help_as_an_error() {
    let g = example_grammar();
    let e = parse_args(&g, &tokens(&["--help"])).expect_err("help");
    assert_eq!(e.kind, ErrorKind::HelpRequested);
    assert_eq!(e.subject, g.usage());
    assert_eq!(e.message(), g.usage());
    let e = parse_args(&g, &tokens(&[])).expect_err("missing");
    assert_eq!(e.kind, ErrorKind::MissingRequiredArgument);
    assert_eq!(e.subject, "name");
    let m = parse_args(&g, &tokens(&["neo"])).expect("match");
    assert_eq!(value(&m, "name"), scalar("neo"));
}

#[test]
fn bind_takes_a_finished_scan() {
    let g = grammar(&["a"], &["b;;dflt"], &["o"], &["f"], None, None, None);
    let hits = vec![Hit { switch: 1, value: String::new() }, Hit { switch: 0, value: "v".to_string() }];
    match bind(&g, &hits, tokens(&["1"]), tokens(&["2"])) {
        Outcome::Matched(m) => {
            assert_eq!(value(&m, "a"), scalar("1"));
            assert_eq!(value(&m, "b"), scalar("2"));
            assert_eq!(value(&m, "o"), scalar("v"));
            assert_eq!(value(&m, "f"), ArgValue::Bool(true));
        }
        other => panic!("no match: {:?}", other),
    }
}

#[test]
fn lookup_finds_the_first_binding_of_a_name() {
    let g = grammar(&["same"], &[], &["same"], &[], None, None, None);
    let m = matched(&g, &["pos", "--same", "opt"]);
    assert_eq!(value(&m, "same"), scalar("pos"));
    assert!(m.get("other").is_none());
}
