use rbsby::types::{
    parse_alias_name, parse_class_instance_name, parse_integer_literal, parse_interface_name,
    parse_literal, parse_singleton_class_name, parse_string_literal, parse_symbol_literal,
    parse_type,
};
use rbsby::{RbsParser, Rule, SyntaxError, SyntaxTree};

fn accepted(result: Result<SyntaxTree, SyntaxError>, rule: Rule) {
    let tree = result.unwrap();
    assert_eq!(tree.nodes[0].rule, rule);
}

fn rules(tree: &SyntaxTree) -> Vec<Rule> {
    tree.nodes.iter().map(|n| n.rule).collect()
}

#[test]
fn parse_class_name_test() {
    assert!(parse_class_instance_name("x").is_err());

    accepted(parse_class_instance_name("X"), Rule::TypeClassInstanceName);
    accepted(parse_class_instance_name("X[T]"), Rule::TypeClassInstanceName);
    accepted(parse_class_instance_name("Foo"), Rule::TypeClassInstanceName);
    accepted(parse_class_instance_name("Foo[U]"), Rule::TypeClassInstanceName);
    accepted(parse_class_instance_name("FooBar"), Rule::TypeClassInstanceName);
    accepted(parse_class_instance_name("FooBar[Meow]"), Rule::TypeClassInstanceName);
    accepted(parse_class_instance_name("FOOBAR"), Rule::TypeClassInstanceName);
    accepted(parse_class_instance_name("FOOBAR[A, B, C]"), Rule::TypeClassInstanceName);
    accepted(parse_class_instance_name("Foo_Bar"), Rule::TypeClassInstanceName);
    accepted(parse_class_instance_name("Foo_Bar_BAZ"), Rule::TypeClassInstanceName);
    accepted(parse_class_instance_name("::X"), Rule::TypeClassInstanceName);
    accepted(parse_class_instance_name("::X::Why"), Rule::TypeClassInstanceName);
    accepted(parse_class_instance_name("X::Y"), Rule::TypeClassInstanceName);
    accepted(parse_class_instance_name("X123"), Rule::TypeClassInstanceName);
}

#[test]
fn parse_interface_name_test() {
    assert!(parse_interface_name("X").is_err());

    accepted(parse_interface_name("_H"), Rule::TypeInterfaceName);
    accepted(parse_interface_name("_Hashing"), Rule::TypeInterfaceName);
    accepted(parse_interface_name("_Each[A, B]"), Rule::TypeInterfaceName);
    accepted(parse_interface_name("_Each_Iter[A, B]"), Rule::TypeInterfaceName);
    accepted(parse_interface_name("::Foo::Bar::_Each_Iter[A, B]"), Rule::TypeInterfaceName);
}

#[test]
fn parse_alias_name_test() {
    assert!(parse_alias_name("X").is_err());
    assert!(parse_alias_name("::X").is_err());
    assert!(parse_alias_name("::X::Y").is_err());
    assert!(parse_alias_name("::abcd::efgh").is_err());

    accepted(parse_alias_name("a"), Rule::TypeAliasName);
    accepted(parse_alias_name("a_b_c"), Rule::TypeAliasName);
    accepted(parse_alias_name("aBcD"), Rule::TypeAliasName);
    accepted(parse_alias_name("::aBcD"), Rule::TypeAliasName);
    accepted(parse_alias_name("::Foo::bar"), Rule::TypeAliasName);
    accepted(parse_alias_name("Foo::bar"), Rule::TypeAliasName);
}

#[test]
fn parse_singleton_class_name_test() {
    accepted(parse_singleton_class_name("singleton(Foo)"), Rule::TypeSingletonClassName);
    accepted(parse_singleton_class_name("singleton ( Foo )"), Rule::TypeSingletonClassName);
    accepted(parse_singleton_class_name("singleton(::Foo)"), Rule::TypeSingletonClassName);

    accepted(parse_singleton_class_name("singleton(Foo::Bar)"), Rule::TypeSingletonClassName);

    assert!(parse_singleton_class_name("singleton(Foo[A])").is_err());
}

#[test]
fn parse_string_literal_test() {
    accepted(parse_string_literal(r#"''"#), Rule::LiteralString);
    accepted(parse_string_literal(r#"'hi'"#), Rule::LiteralString);
    accepted(parse_string_literal(r#"'foo \a bar'"#), Rule::LiteralString);
    accepted(parse_string_literal(r#"'foo \b bar'"#), Rule::LiteralString);
    accepted(parse_string_literal(r#"'foo \t bar'"#), Rule::LiteralString);
    accepted(parse_string_literal(r#"'🌮  \"  '"#), Rule::LiteralString);

    accepted(parse_string_literal(r#""""#), Rule::LiteralString);
    accepted(parse_string_literal(r#""hi""#), Rule::LiteralString);
    accepted(parse_string_literal(r#""foo \a bar""#), Rule::LiteralString);
    accepted(parse_string_literal(r#""foo \b bar""#), Rule::LiteralString);
    accepted(parse_string_literal(r#""foo \t bar""#), Rule::LiteralString);
    accepted(parse_string_literal(r#""🌮   ""#), Rule::LiteralString);
}

#[test]
fn parse_symbol_literal_test() {
    accepted(parse_symbol_literal(":hi"), Rule::LiteralSymbol);
    accepted(parse_symbol_literal(":foo_bar"), Rule::LiteralSymbol);
    accepted(parse_symbol_literal(":🌮"), Rule::LiteralSymbol);

    accepted(parse_symbol_literal(r#":''"#), Rule::LiteralSymbol);
    accepted(parse_symbol_literal(r#":'hi'"#), Rule::LiteralSymbol);
    accepted(parse_symbol_literal(r#":'foo \a bar'"#), Rule::LiteralSymbol);
    accepted(parse_symbol_literal(r#":'foo \b bar'"#), Rule::LiteralSymbol);
    accepted(parse_symbol_literal(r#":'foo \t bar'"#), Rule::LiteralSymbol);
    accepted(parse_symbol_literal(r#":'🌮  \"  '"#), Rule::LiteralSymbol);

    accepted(parse_symbol_literal(r#":"""#), Rule::LiteralSymbol);
    accepted(parse_symbol_literal(r#":"hi""#), Rule::LiteralSymbol);
    accepted(parse_symbol_literal(r#":"foo \a bar""#), Rule::LiteralSymbol);
    accepted(parse_symbol_literal(r#":"foo \b bar""#), Rule::LiteralSymbol);
    accepted(parse_symbol_literal(r#":"foo \t bar""#), Rule::LiteralSymbol);
    accepted(parse_symbol_literal(r#":"🌮   ""#), Rule::LiteralSymbol);
}

#[test]
fn parse_integer_literal_test() {
    accepted(parse_integer_literal("0"), Rule::LiteralInteger);
    accepted(parse_integer_literal("1_2_3"), Rule::LiteralInteger);

    accepted(parse_integer_literal("0d0"), Rule::LiteralInteger);
    accepted(parse_integer_literal("0D0"), Rule::LiteralInteger);

    accepted(parse_integer_literal("0x0"), Rule::LiteralInteger);
    accepted(parse_integer_literal("0X0"), Rule::LiteralInteger);

    accepted(parse_integer_literal("00"), Rule::LiteralInteger);
    accepted(parse_integer_literal("0o0"), Rule::LiteralInteger);
    accepted(parse_integer_literal("0o01234567"), Rule::LiteralInteger);
    assert!(parse_integer_literal("0o0123456789").is_err());

    accepted(parse_integer_literal("0b0"), Rule::LiteralInteger);
    accepted(parse_integer_literal("0B0"), Rule::LiteralInteger);
    accepted(parse_integer_literal("0b010_101"), Rule::LiteralInteger);
}

#[test]
fn class_name_with_type_arguments_tree() {
    let tree = parse_class_instance_name("FOOBAR[A, _B[C]]").unwrap();
    assert_eq!(
        rules(&tree),
        vec![
            Rule::TypeClassInstanceName,
            Rule::ClassName,
            Rule::TypeArguments,
            Rule::Type,
            Rule::TypeClassInstanceName,
            Rule::ClassName,
            Rule::Type,
            Rule::TypeInterfaceName,
            Rule::InterfaceName,
            Rule::TypeArguments,
            Rule::Type,
            Rule::TypeClassInstanceName,
            Rule::ClassName,
        ]
    );
    assert_eq!((tree.nodes[0].start, tree.nodes[0].end, tree.nodes[0].size), (0, 16, 13));
    assert_eq!((tree.nodes[2].start, tree.nodes[2].end, tree.nodes[2].size), (6, 16, 11));
    assert_eq!((tree.nodes[6].start, tree.nodes[6].end, tree.nodes[6].size), (10, 15, 7));
}

#[test]
fn reparsing_the_matched_span_gives_the_same_shape() {
    let text = "Foo::Bar[ A , _B[C] ] and more";
    let first = parse_type(text).unwrap();
    let span = &text[first.nodes[0].start..first.nodes[0].end];
    assert_eq!(span, "Foo::Bar[ A , _B[C] ]");
    let second = parse_class_instance_name(span).unwrap();
    assert_eq!(second.nodes.len() + 1, first.nodes.len());
    for (a, b) in first.nodes[1..].iter().zip(second.nodes.iter()) {
        assert_eq!(a.rule, b.rule);
        assert_eq!(a.size, b.size);
        assert_eq!(a.end - a.start, b.end - b.start);
    }
}

#[test]
fn class_and_interface_names_exclude_each_other() {
    for text in ["X", "Foo", "Foo::Bar", "::Foo[A]", "X123"] {
        assert!(parse_class_instance_name(text).is_ok());
        assert!(parse_interface_name(text).is_err());
    }
    for text in ["_X", "Foo::_Bar", "::_Each[A]", "_Each_Iter"] {
        assert!(parse_interface_name(text).is_ok());
        assert!(parse_class_instance_name(text).is_err());
    }
    for text in ["x", "_x", "", "Foo::", "::", "9"] {
        assert!(parse_interface_name(text).is_err());
        assert!(parse_class_instance_name(text).is_err());
    }
}

#[test]
fn octal_literals_take_octal_digits_only() {
    for text in ["0o0", "0o7", "0O17", "0o01234567", "0o7_7", "017", "00", "0_7"] {
        assert!(parse_integer_literal(text).is_ok(), "{}", text);
    }
    for text in ["0o8", "0o9", "0o18", "0o0123456789", "0O79", "08", "09", "0178", "0o", "0o_7", "0o7_"] {
        assert!(parse_integer_literal(text).is_err(), "{}", text);
    }
}

#[test]
fn integer_literal_forms() {
    for text in ["1", "42", "1_000", "0d19", "0xdead_BEEF", "0b1", "0"] {
        assert!(parse_integer_literal(text).is_ok(), "{}", text);
    }
    for text in ["", "_1", "1_", "1__2", "0xg", "0b2", "0d", "1a", "-1"] {
        assert!(parse_integer_literal(text).is_err(), "{}", text);
    }
    let err = parse_integer_literal("0o0123456789").unwrap_err();
    assert_eq!(err.rule, Rule::LiteralInteger);
    assert_eq!(err.offset, 10);
}

#[test]
fn singleton_takes_no_type_arguments() {
    for text in ["singleton(Foo[A])", "singleton ( Foo [A] )", "singleton(\nFoo\n[ A ]\n)", "singleton(::Foo::Bar[A, B])"] {
        assert!(parse_singleton_class_name(text).is_err(), "{}", text);
    }
    for text in ["singleton(Foo)", "singleton\n(\nFoo::Bar\n)"] {
        assert!(parse_singleton_class_name(text).is_ok(), "{}", text);
    }
    assert!(parse_singleton_class_name("singletonFoo").is_err());
    assert!(parse_singleton_class_name("singleton(foo)").is_err());
    let tree = parse_singleton_class_name("singleton(Foo::Bar)").unwrap();
    assert_eq!(rules(&tree), vec![Rule::TypeSingletonClassName, Rule::ClassName]);
    assert_eq!((tree.nodes[1].start, tree.nodes[1].end), (10, 18));
}

#[test]
fn symbol_wrapping_a_single_quoted_string_with_an_escape() {
    let tree = parse_symbol_literal(":'foo \\a bar'").unwrap();
    assert_eq!(
        rules(&tree),
        vec![
            Rule::LiteralSymbol,
            Rule::LiteralString,
            Rule::SingleQuotedString,
            Rule::Escape,
        ]
    );
    assert_eq!((tree.nodes[0].start, tree.nodes[0].end), (0, 13));
    assert_eq!((tree.nodes[2].start, tree.nodes[2].end), (1, 13));
    assert_eq!((tree.nodes[3].start, tree.nodes[3].end), (6, 8));
}

#[test]
fn string_literal_edges() {
    let tree = parse_string_literal(r#""a\"b""#).unwrap();
    assert_eq!(rules(&tree), vec![Rule::LiteralString, Rule::DoubleQuotedString, Rule::Escape]);
    let tree = parse_string_literal(r#"'it\'s'"#).unwrap();
    assert_eq!(tree.nodes[1].rule, Rule::SingleQuotedString);
    for text in ["'", "\"", "'abc", "\"abc'", "'abc\\'", "abc", "'a'b"] {
        assert!(parse_string_literal(text).is_err(), "{}", text);
    }
    assert!(parse_symbol_literal(":").is_err());
    assert!(parse_symbol_literal(":1a").is_err());
    assert!(parse_symbol_literal("hi").is_err());
}

#[test]
fn literal_kinds() {
    let tree = parse_literal("'hi'").unwrap();
    assert_eq!(rules(&tree)[..2], [Rule::Literal, Rule::LiteralString]);
    let tree = parse_literal(":hi").unwrap();
    assert_eq!(rules(&tree), vec![Rule::Literal, Rule::LiteralSymbol]);
    let tree = parse_literal("0x1f").unwrap();
    assert_eq!(rules(&tree), vec![Rule::Literal, Rule::LiteralInteger]);
    assert!(parse_literal("Foo").is_err());
}

#[test]
fn type_expression_alternatives() {
    let first = |text: &str| parse_type(text).unwrap().nodes[1].rule;
    assert_eq!(first("singleton(Foo)"), Rule::TypeSingletonClassName);
    assert_eq!(first("singleton"), Rule::TypeAliasName);
    assert_eq!(first("_Each[A]"), Rule::TypeInterfaceName);
    assert_eq!(first("Array[A]"), Rule::TypeClassInstanceName);
    assert_eq!(first("Foo::bar"), Rule::TypeAliasName);
    assert_eq!(first(":sym"), Rule::Literal);
    assert_eq!(first("12"), Rule::Literal);
    assert!(parse_type("[A]").is_err());
    let tree = parse_type("Foo[A").unwrap();
    assert_eq!(tree.nodes[0].end, 3);
}

#[test]
fn any_production_can_be_asked_for() {
    let tree = RbsParser::parse(Rule::TypeArguments, "[A, B]").unwrap();
    assert_eq!(tree.nodes[0].rule, Rule::TypeArguments);
    assert_eq!(tree.nodes[0].size, 7);
    let tree = RbsParser::parse(Rule::Escape, "\\n").unwrap();
    assert_eq!(tree.nodes.len(), 1);
    let err = RbsParser::parse(Rule::VarianceOut, "outer").unwrap_err();
    assert_eq!(err, SyntaxError { rule: Rule::VarianceOut, offset: 3 });
    assert!(Rule::Type.allows_trailing());
    assert!(!Rule::MemberMethod.allows_trailing());
}
