use rbsby::boolean::{parse, parse_boolean, parse_literal, Node};
use rbsby::{Context, Rule};

#[test]
fn true_false_test() {
    assert_eq!(parse_boolean("true").unwrap(), ("", Node::True));
    assert_eq!(parse_boolean("true  false").unwrap(), ("  false", Node::True));

    assert_eq!(parse_literal("true").unwrap(), ("", Node::True));
    assert_eq!(parse_literal("true  false").unwrap(), ("  false", Node::True));
    assert_eq!(parse_literal("truefalse").unwrap(), ("false", Node::True));
}

#[test]
fn false_and_neither() {
    assert_eq!(parse("false").unwrap(), ("", Node::False));
    assert_eq!(parse("falsetrue").unwrap(), ("true", Node::False));
    assert_eq!(parse("false🌮").unwrap(), ("🌮", Node::False));
    let err = parse("  false").unwrap_err();
    assert_eq!(err.rule, Rule::LiteralBoolean);
    assert_eq!(err.offset, 0);
    let err = parse("trux").unwrap_err();
    assert_eq!(err.offset, 3);
    let err = parse("fal").unwrap_err();
    assert_eq!(err.offset, 3);
    assert!(parse("").is_err());
}

#[test]
fn new_context_starts_at_the_beginning() {
    let ctx = Context::new("class Foo\nend");
    assert_eq!(ctx.current_offset, 0);
    assert_eq!(ctx.end_offset, 13);
    assert_eq!(ctx.furthest, 0);
    assert_eq!(ctx.text, "class Foo\nend");
    assert!(ctx.nodes.is_empty());
}

#[test]
fn context_productions_move_the_cursor_or_leave_it() {
    let mut ctx = Context::new("Foo::Bar baz");
    assert!(!ctx.alias_name());
    assert_eq!(ctx.current_offset, 0);
    assert!(ctx.nodes.is_empty());
    assert_eq!(ctx.furthest, 8);
    assert!(ctx.class_name());
    assert_eq!(ctx.current_offset, 8);
    assert_eq!(ctx.nodes.len(), 1);
    assert!(ctx.trivia());
    assert_eq!(ctx.current_offset, 9);
    assert!(ctx.keyword("baz"));
    assert!(ctx.end_of_input());
    assert_eq!(ctx.furthest, 12);
}
