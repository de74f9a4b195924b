use rbsby::members::parse_method;
use rbsby::types::{parse_class_instance_name, parse_interface_name, parse_type};
use rbsby::{RbsParser, Rule};

/// The offsets right behind the tokens of a method member.
fn gaps(text: &str, tokens: &[&str]) -> Vec<usize> {
    let mut at = 0;
    let mut found = Vec::new();
    for token in tokens {
        let start = text[at..].find(token).unwrap() + at;
        at = start + token.len();
        found.push(at);
    }
    found
}

#[test]
fn white_space_behind_any_token_of_an_accepted_method() {
    let cases: [(&str, &[&str]); 6] = [
        ("def self?.baz:()->A", &["def", "self", "?", ".", "baz", ":", "()", "->"]),
        ("def self . bar : ( A , B[C] ) -> _D[E]", &["def", "self", ".", "bar", ":", "( A , B[C] )", "->"]),
        ("def foo: (Integer, 'a) b', :sym) -> singleton(Foo)", &["def", "foo", ":", "(Integer, 'a) b', :sym)", "->"]),
        ("def self: () -> A", &["def", "self", ":", "()", "->"]),
        ("def self?: () -> A", &["def", "self?", ":", "()", "->"]),
        ("def s: () -> 0x1f", &["def", "s", ":", "()", "->"]),
    ];
    for (text, tokens) in cases {
        let before = parse_method(text).unwrap();
        for g in gaps(text, tokens) {
            for w in [" ", "\n", "\t \r\n  "] {
                let wider = format!("{}{}{}", &text[..g], w, &text[g..]);
                let after = parse_method(&wider).unwrap();
                assert_eq!(after.nodes[0].end, before.nodes[0].end + w.len(), "{:?}", wider);
                assert_eq!(after.nodes.len(), before.nodes.len());
            }
        }
    }
}

#[test]
fn white_space_behind_any_token_of_a_rejected_method() {
    let cases: [(&str, &[&str]); 4] = [
        ("def      self .: () -> A", &["def", "self", "."]),
        ("def self ? : () -> A", &["def", "self"]),
        ("def foo: () A", &["def", "foo", ":", "()"]),
        ("def foo: (A -> B", &["def", "foo", ":"]),
    ];
    for (text, tokens) in cases {
        assert!(parse_method(text).is_err());
        for g in gaps(text, tokens) {
            for w in [" ", "\n", "\t \r\n  "] {
                let wider = format!("{}{}{}", &text[..g], w, &text[g..]);
                assert!(parse_method(&wider).is_err(), "{:?}", wider);
            }
        }
    }
}

#[test]
fn a_line_feed_inside_a_comment_is_no_white_space_between_tokens() {
    let text = "def foo # the name\n: () -> A";
    assert!(parse_method(text).is_ok());
    let broken = "def foo # the\n name\n: () -> A";
    assert!(parse_method(broken).is_err());
}

#[test]
fn white_space_behind_a_comment_between_two_tokens() {
    let text = "def foo # the name\n: () # nothing\n -> A";
    let before = parse_method(text).unwrap();
    for g in [7, 19, 23, 24, 34, 35] {
        let wider = format!("{}{}{}", &text[..g], " \n\t", &text[g..]);
        let after = parse_method(&wider).unwrap();
        assert_eq!(after.nodes[0].end, before.nodes[0].end + 3, "{:?}", wider);
    }
}

#[test]
fn a_name_with_type_arguments_parses_the_same_anywhere() {
    let inner = "Foo::Bar[ A , _B[C], 'x]' ]";
    let alone = parse_class_instance_name(inner).unwrap();
    for (front, back) in [("", " , rest"), ("Array[", "]"), ("(", ") -> A")] {
        let text = format!("{}{}{}", front, inner, back);
        let p = front.len();
        let whole = parse_type(&text[p..]).unwrap();
        assert_eq!(whole.nodes[0].end, inner.len());
        assert_eq!(whole.nodes.len(), alone.nodes.len() + 1);
        for (a, b) in whole.nodes[1..].iter().zip(alone.nodes.iter()) {
            assert_eq!(a, b);
        }
    }
    let tree = RbsParser::parse(Rule::Type, "_Each[A] | nil").unwrap();
    assert_eq!(tree.nodes[0].end, 8);
    let iface = parse_interface_name("_Each[A]").unwrap();
    let again = parse_interface_name(&"_Each[A]"[iface.nodes[0].start..iface.nodes[0].end]).unwrap();
    assert_eq!(iface.nodes, again.nodes);
}
