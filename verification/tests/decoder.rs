use spongecrab::descriptor::{get_arg, with_arguments, ARG_DELIMITER};
use spongecrab::{get_arg_data, ArgumentDescriptor, ArgumentKind};

fn descriptor(name: &str, help: &str, default: Option<&str>, short: Option<char>) -> ArgumentDescriptor {
    ArgumentDescriptor {
        name: name.to_string(),
        help: help.to_string(),
        default: default.map(|s| s.to_string()),
        short,
    }
}

fn same(a: &ArgumentDescriptor, b: &ArgumentDescriptor) -> bool {
    a == b
}

#[test]
fn decodes_all_four_segments() {
    let d = ArgumentDescriptor::decode("note;notice;fallback;n");
    assert!(same(&d, &descriptor("note", "notice", Some("fallback"), Some('n'))));
}

#[test]
fn missing_trailing_segments_are_empty() {
    assert!(same(&ArgumentDescriptor::decode("name"), &descriptor("name", "", None, None)));
    assert!(same(&ArgumentDescriptor::decode("name;help"), &descriptor("name", "help", None, None)));
    assert!(same(
        &ArgumentDescriptor::decode("name;help;dflt"),
        &descriptor("name", "help", Some("dflt"), None)
    ));
    assert!(same(&ArgumentDescriptor::decode(""), &descriptor("", "", None, None)));
}

#[test]
fn empty_default_segment_is_no_default() {
    let d = ArgumentDescriptor::decode("polite;Be polite;;p");
    assert_eq!(d.default, None);
    assert_eq!(d.short, Some('p'));
    let d = ArgumentDescriptor::decode("a;b;");
    assert_eq!(d.default, None);
    assert_eq!(d.short, None);
}

#[test]
fn short_segment_gives_its_first_character_only() {
    let d = ArgumentDescriptor::decode("verbose;Say more;;verbose");
    assert_eq!(d.short, Some('v'));
}

#[test]
fn splits_at_most_three_times() {
    let d = ArgumentDescriptor::decode("a;b;c;;rest");
    assert!(same(&d, &descriptor("a", "b", Some("c"), Some(';'))));
    let d = ArgumentDescriptor::decode("a;b;c;x;y;z");
    assert!(same(&d, &descriptor("a", "b", Some("c"), Some('x'))));
}

#[test]
fn hyphens_and_unicode_survive_decoding() {
    let d = ArgumentDescriptor::decode("flag-arg;héllo wörld;défaut;é");
    assert!(same(&d, &descriptor("flag-arg", "héllo wörld", Some("défaut"), Some('é'))));
}

#[test]
fn decodes_with_another_delimiter() {
    let d = ArgumentDescriptor::decode_with("a;b|help|dflt|s", '|');
    assert!(same(&d, &descriptor("a;b", "help", Some("dflt"), Some('s'))));
    assert_eq!(ARG_DELIMITER, ';');
}

#[test]
fn get_arg_data_gives_the_four_parts() {
    let (name, help, default, short) = get_arg_data("greet;greeting;hello");
    assert_eq!(name, "greet");
    assert_eq!(help, "greeting");
    assert_eq!(default, Some("hello".to_string()));
    assert_eq!(short, None);
    let (name, help, default, short) = get_arg_data("note;notice;;n");
    assert_eq!(name, "note");
    assert_eq!(help, "notice");
    assert_eq!(default, None);
    assert_eq!(short, Some('n'));
}

#[test]
fn encode_writes_four_segments() {
    assert_eq!(descriptor("note", "notice", None, Some('n')).encode(';'), "note;notice;;n");
    assert_eq!(descriptor("name", "", None, None).encode(';'), "name;;;");
    assert_eq!(descriptor("a", "b", Some("c"), None).encode('|'), "a|b|c|");
}

#[test]
fn decoding_then_encoding_gives_the_text_back() {
    for raw in ["note;notice;;n", "greet;greeting;hello;", "a;b;c;d", ";;;", "x;;y;z", "pos-arg;;;"] {
        assert_eq!(ArgumentDescriptor::decode(raw).encode(';'), raw);
    }
    assert_eq!(ArgumentDescriptor::decode_with("a,b,c,d", ',').encode(','), "a,b,c,d");
}

#[test]
fn a_long_short_segment_does_not_survive_the_round_trip() {
    assert_eq!(ArgumentDescriptor::decode("a;b;c;xy").encode(';'), "a;b;c;x");
}

#[test]
fn shape_keeps_what_the_kind_allows() {
    let full = descriptor("n", "h", Some("d"), Some('s'));
    let kept = |kind: ArgumentKind| {
        let d = full.shape(kind);
        assert_eq!(d.name, "n");
        assert_eq!(d.help, "h");
        (d.default.is_some(), d.short.is_some())
    };
    assert_eq!(kept(ArgumentKind::RequiredPositional), (false, false));
    assert_eq!(kept(ArgumentKind::OptionalPositional), (true, false));
    assert_eq!(kept(ArgumentKind::NamedOption), (true, true));
    assert_eq!(kept(ArgumentKind::Flag), (false, true));
    assert_eq!(kept(ArgumentKind::CollectOptional), (false, false));
    assert_eq!(kept(ArgumentKind::CollectRequired), (false, false));
    assert_eq!(kept(ArgumentKind::TrailingExtra), (false, false));
}

#[test]
fn get_arg_decodes_and_shapes() {
    let d = get_arg("polite;Be polite;yes;p", ArgumentKind::Flag);
    assert!(same(&d, &descriptor("polite", "Be polite", None, Some('p'))));
    let d = get_arg("name;The name;x;n", ArgumentKind::RequiredPositional);
    assert!(same(&d, &descriptor("name", "The name", None, None)));
}

#[test]
fn with_arguments_decodes_each_in_order() {
    let args = vec!["a;first;1;x".to_string(), "b;second".to_string()];
    let list = with_arguments(&args, ArgumentKind::NamedOption);
    assert_eq!(list.len(), 2);
    assert!(same(&list[0], &descriptor("a", "first", Some("1"), Some('x'))));
    assert!(same(&list[1], &descriptor("b", "second", None, None)));
    assert!(with_arguments(&Vec::new(), ArgumentKind::Flag).is_empty());
}
