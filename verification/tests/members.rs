use rbsby::members::{parse_alias, parse_attribute, parse_extend, parse_include, parse_method};
use rbsby::{Rule, SyntaxError, SyntaxTree};

fn accepted(result: Result<SyntaxTree, SyntaxError>, rule: Rule) {
    let tree = result.unwrap();
    assert_eq!(tree.nodes[0].rule, rule);
}

fn rules(tree: &SyntaxTree) -> Vec<Rule> {
    tree.nodes.iter().map(|n| n.rule).collect()
}

#[test]
fn parse_method_test() {
    accepted(parse_method("def foo: () -> A"), Rule::MemberMethod);
    accepted(parse_method("def     foo    : ()     ->     A"), Rule::MemberMethod);
    accepted(parse_method("def self.bar: () -> A"), Rule::MemberMethod);
    accepted(parse_method("def      self.   bar: () -> A"), Rule::MemberMethod);
    accepted(parse_method("def      self   .bar   : () -> A"), Rule::MemberMethod);
    accepted(parse_method("def self?.baz: () -> A"), Rule::MemberMethod);
    accepted(parse_method("def self ? . baz :()->A"), Rule::MemberMethod);
    accepted(parse_method("def self?.baz:()->A"), Rule::MemberMethod);

    assert!(parse_method("def      self .: () -> A").is_err());
}

#[test]
fn parse_alias_test() {
    accepted(parse_alias("alias hello world"), Rule::MemberAlias);
    accepted(parse_alias("alias self.hello self.world"), Rule::MemberAlias);
    accepted(parse_alias("alias    self   .   hello    self   .   world"), Rule::MemberAlias);
}

#[test]
fn parse_attribute_test() {
    accepted(parse_attribute("attr_reader string: String"), Rule::MemberAttribute);
    accepted(parse_attribute("attr_writer name (): Integer"), Rule::MemberAttribute);
    accepted(parse_attribute("attr_writer name (@raw_name): String"), Rule::MemberAttribute);
    accepted(parse_attribute("attr_accessor people (): Array[Person]"), Rule::MemberAttribute);
}

#[test]
fn parse_include_test() {
    accepted(parse_include("include FooBar"), Rule::MemberInclude);
    accepted(parse_include("include X[A]"), Rule::MemberInclude);
    accepted(parse_include("include Array[A]"), Rule::MemberInclude);
    accepted(parse_include("include _ToS"), Rule::MemberInclude);
    accepted(parse_include("include _Each[T]"), Rule::MemberInclude);
}

#[test]
fn parse_extend_test() {
    accepted(parse_extend("extend FooBar"), Rule::MemberExtend);
    accepted(parse_extend("extend X[A]"), Rule::MemberExtend);
    accepted(parse_extend("extend Array[A]"), Rule::MemberExtend);
    accepted(parse_extend("extend _ToS"), Rule::MemberExtend);
    accepted(parse_extend("extend _Each[T]"), Rule::MemberExtend);
}

#[test]
fn method_with_both_receivers_and_no_parameters() {
    let tree = parse_method("def self?.baz:()->A").unwrap();
    assert_eq!(
        rules(&tree),
        vec![
            Rule::MemberMethod,
            Rule::ReceiverSelfOrInstance,
            Rule::MethodName,
            Rule::MethodType,
            Rule::Params,
            Rule::Type,
            Rule::TypeClassInstanceName,
            Rule::ClassName,
        ]
    );
    assert_eq!((tree.nodes[0].start, tree.nodes[0].end, tree.nodes[0].size), (0, 19, 8));
    assert_eq!((tree.nodes[1].start, tree.nodes[1].end), (4, 10));
    assert_eq!((tree.nodes[2].start, tree.nodes[2].end), (10, 13));
    assert_eq!((tree.nodes[4].start, tree.nodes[4].end, tree.nodes[4].size), (14, 16, 1));
    assert_eq!((tree.nodes[7].start, tree.nodes[7].end), (18, 19));
}

#[test]
fn method_receiver_kinds() {
    let tree = parse_method("def foo: () -> A").unwrap();
    assert_eq!(tree.nodes[1].rule, Rule::MethodName);
    let tree = parse_method("def self.bar: () -> A").unwrap();
    assert_eq!(tree.nodes[1].rule, Rule::ReceiverSelf);
    let tree = parse_method("def self: () -> A").unwrap();
    assert_eq!(tree.nodes[1].rule, Rule::MethodName);
    assert_eq!((tree.nodes[1].start, tree.nodes[1].end), (4, 8));
    let tree = parse_method("def empty?: (Integer, String) -> bool").unwrap();
    assert_eq!((tree.nodes[1].start, tree.nodes[1].end), (4, 10));
    assert_eq!(rules(&tree).iter().filter(|r| **r == Rule::Type).count(), 3);
}

#[test]
fn extra_white_space_between_tokens_keeps_acceptance() {
    let tight = "def self?.baz:()->A";
    let loose = "def \n self \t ? \n . \n baz \n : \n ( \n ) \n -> \n A";
    let a = parse_method(tight).unwrap();
    let b = parse_method(loose).unwrap();
    assert_eq!(rules(&a), rules(&b));
    assert_eq!(b.nodes[0].end, loose.len());

    let bad = "def      self .: () -> A";
    let worse = "def \n\n self \n . \n : ( ) \n -> \n A";
    assert!(parse_method(bad).is_err());
    assert!(parse_method(worse).is_err());
}

#[test]
fn members_reject_what_is_left_over() {
    assert!(parse_method("def foo: () -> A extra").is_err());
    assert!(parse_method("def foo: () -> A ").is_err());
    assert!(parse_method("deffoo: () -> A").is_err());
    assert!(parse_method("def foo () -> A").is_err());
    assert!(parse_method("def foo: ( -> A").is_err());
    assert!(parse_method("def Foo: () -> A").is_err());
    assert!(parse_alias("alias hello").is_err());
    assert!(parse_alias("alias hello world again").is_err());
    assert!(parse_attribute("attr_reader string String").is_err());
    assert!(parse_attribute("attr_reader name (@): String").is_err());
    assert!(parse_attribute("attr_maker name: String").is_err());
    assert!(parse_include("include foo").is_err());
    assert!(parse_include("include X[A").is_err());
    assert!(parse_extend("extend singleton(Foo)").is_err());
}

#[test]
fn method_error_offset_is_where_the_name_is_missing() {
    let err = parse_method("def      self .: () -> A").unwrap_err();
    assert_eq!(err.rule, Rule::MemberMethod);
    assert_eq!(err.offset, 15);
    let err = parse_method("def foo: () -> A extra").unwrap_err();
    assert_eq!(err.offset, 17);
}

#[test]
fn attribute_instance_variable_clause() {
    let tree = parse_attribute("attr_writer name (@raw_name): String").unwrap();
    let rs = rules(&tree);
    assert_eq!(
        rs[..5],
        [
            Rule::MemberAttribute,
            Rule::AttrWriter,
            Rule::AttributeName,
            Rule::IvarClause,
            Rule::IvarName,
        ]
    );
    assert_eq!((tree.nodes[4].start, tree.nodes[4].end), (18, 27));
    let tree = parse_attribute("attr_writer name (): Integer").unwrap();
    assert_eq!(tree.nodes[3].rule, Rule::IvarClause);
    assert_eq!(tree.nodes[3].size, 1);
    let tree = parse_attribute("attr_accessor people: Integer").unwrap();
    assert_eq!(tree.nodes[1].rule, Rule::AttrAccessor);
    assert_eq!(tree.nodes[3].rule, Rule::Type);
}

#[test]
fn alias_operands() {
    let tree = parse_alias("alias self.hello world").unwrap();
    assert_eq!(
        rules(&tree),
        vec![
            Rule::MemberAlias,
            Rule::MethodRef,
            Rule::ReceiverSelf,
            Rule::MethodName,
            Rule::MethodRef,
            Rule::MethodName,
        ]
    );
}
