use rbsby::declarations::{parse_class, parse_class_decl, parse_const_decl, parse_module_decl};
use rbsby::{Rule, SyntaxTree};

fn rules(tree: &SyntaxTree) -> Vec<Rule> {
    tree.nodes.iter().map(|n| n.rule).collect()
}

#[test]
fn declarations_class_decl_no_members_positive_test() {
    let text = "class Foo\nend";
    let _ = parse_class_decl(text).unwrap();

    let text = "class Foo[T]\nend";
    let _ = parse_class_decl(text).unwrap();

    let text = "class Foo[T, U]\nend";
    let _ = parse_class_decl(text).unwrap();

    let text = "class Foo[out T]\nend";
    let _ = parse_class_decl(text).unwrap();

    let text = "class Foo[in T]\nend";
    let _ = parse_class_decl(text).unwrap();

    let text = "class Foo[unchecked T]\nend";
    let _ = parse_class_decl(text).unwrap();

    let text = "class Foo[unchecked out T]\nend";
    let _ = parse_class_decl(text).unwrap();

    let text = "class Foo[unchecked in T]\nend";
    let _ = parse_class_decl(text).unwrap();

    let text = "class Foo[T < _Output]\nend";
    let _ = parse_class_decl(text).unwrap();

    let text = "class Foo[T] < Bar[T]\nend";
    let _ = parse_class_decl(text).unwrap();
}

#[test]
fn module_decl_no_members_positive_test() {
    let text = "module Foo\nend";
    let _ = parse_module_decl(text).unwrap();

    let text = "module Foo[T]\nend";
    let _ = parse_module_decl(text).unwrap();

    let text = "module Foo[T, U]\nend";
    let _ = parse_module_decl(text).unwrap();

    let text = "module Foo[out T]\nend";
    let _ = parse_module_decl(text).unwrap();

    let text = "module Foo[in T]\nend";
    let _ = parse_module_decl(text).unwrap();

    let text = "module Foo[unchecked T]\nend";
    let _ = parse_module_decl(text).unwrap();

    let text = "module Foo[unchecked out T]\nend";
    let _ = parse_module_decl(text).unwrap();

    let text = "module Foo[unchecked in T]\nend";
    let _ = parse_module_decl(text).unwrap();

    let text = "module Foo[T < _Output]\nend";
    let _ = parse_module_decl(text).unwrap();

    let text = "module Foo[T] : String, _Array[Symbol]\nend";
    let _ = parse_module_decl(text).unwrap();
}

#[test]
fn const_decl_test() {
    let text = "Person: String";
    let _ = parse_const_decl(text).unwrap();

    let text = "Person::DefaultEmailAddress: String";
    let _ = parse_const_decl(text).unwrap();
}

#[test]
fn pest_parser_class_decl_no_members_positive_test() {
    let text = "class Foo\nend";
    let _ = parse_class(text).unwrap();

    let text = "class Foo[T]\nend";
    let _ = parse_class(text).unwrap();

    let text = "class Foo[T, U]\nend";
    let _ = parse_class(text).unwrap();

    let text = "class Foo[out T]\nend";
    let _ = parse_class(text).unwrap();

    let text = "class Foo[in T]\nend";
    let _ = parse_class(text).unwrap();

    let text = "class Foo[unchecked T]\nend";
    let _ = parse_class(text).unwrap();

    let text = "class Foo[unchecked out T]\nend";
    let _ = parse_class(text).unwrap();

    let text = "class Foo[unchecked in T]\nend";
    let _ = parse_class(text).unwrap();

    let text = "class Foo[T < _Output]\nend";
    let x = parse_class(text).unwrap();

    println!("{:?}", x);
}

#[test]
fn class_decl_with_unchecked_covariant_parameter() {
    let tree = parse_class_decl("class Foo[unchecked out T]\nend").unwrap();
    assert_eq!(
        rules(&tree),
        vec![
            Rule::ClassDecl,
            Rule::ClassName,
            Rule::TypeParams,
            Rule::TypeParam,
            Rule::Unchecked,
            Rule::VarianceOut,
            Rule::TypeParamName,
        ]
    );
    assert_eq!((tree.nodes[0].start, tree.nodes[0].end, tree.nodes[0].size), (0, 30, 7));
    assert_eq!((tree.nodes[3].start, tree.nodes[3].end, tree.nodes[3].size), (10, 25, 4));
    assert_eq!((tree.nodes[6].start, tree.nodes[6].end), (24, 25));
}

#[test]
fn class_decl_modifiers_in_either_order() {
    let tree = parse_class_decl("class Foo[in unchecked T]\nend").unwrap();
    assert_eq!(
        rules(&tree)[3..],
        [Rule::TypeParam, Rule::VarianceIn, Rule::Unchecked, Rule::TypeParamName]
    );
}

#[test]
fn class_decl_with_superclass_and_members() {
    let text = "class Foo[T] < Bar[T]\n  include _Each[T]\n  def each: () -> T\n  attr_reader size: Integer\nend";
    let tree = parse_class_decl(text).unwrap();
    let rs = rules(&tree);
    assert_eq!(tree.nodes[0].end, text.len());
    assert_eq!(rs.iter().filter(|r| **r == Rule::SuperClass).count(), 1);
    assert_eq!(rs.iter().filter(|r| **r == Rule::MemberInclude).count(), 1);
    assert_eq!(rs.iter().filter(|r| **r == Rule::MemberMethod).count(), 1);
    assert_eq!(rs.iter().filter(|r| **r == Rule::MemberAttribute).count(), 1);
}

#[test]
fn declarations_leave_trailing_text_unread() {
    let tree = parse_class_decl("class Foo\nend\nclass Bar\nend").unwrap();
    assert_eq!(tree.nodes[0].end, 13);
    let tree = parse_const_decl("Person: String # the owner").unwrap();
    assert_eq!(tree.nodes[0].end, 14);
}

#[test]
fn comments_count_as_white_space() {
    let text = "class Foo # a class\n  # nothing here\nend";
    let tree = parse_class_decl(text).unwrap();
    assert_eq!(tree.nodes[0].end, text.len());
}

#[test]
fn class_decl_errors_tell_where_the_parse_stuck() {
    let err = parse_class_decl("class Foo[T\nend").unwrap_err();
    assert_eq!(err.rule, Rule::ClassDecl);
    assert_eq!(err.offset, 12);
    let err = parse_class_decl("class foo\nend").unwrap_err();
    assert_eq!(err.offset, 6);
    assert!(parse_class_decl("classFoo\nend").is_err());
    assert!(parse_class_decl("class Foo\nending").is_err());
    assert!(parse_module_decl("module Foo : \nend").is_err());
    assert!(parse_const_decl("person: String").is_err());
    assert!(parse_const_decl("Person String").is_err());
}

#[test]
fn module_decl_self_types() {
    let tree = parse_module_decl("module Foo[T] : String, _Array[Symbol]\nend").unwrap();
    let rs = rules(&tree);
    assert_eq!(rs[0], Rule::ModuleDecl);
    assert_eq!(rs.iter().filter(|r| **r == Rule::SelfTypes).count(), 1);
    assert_eq!(rs.iter().filter(|r| **r == Rule::Type).count(), 3);
}

#[test]
fn const_decl_tree() {
    let tree = parse_const_decl("Person::DefaultEmailAddress: String").unwrap();
    assert_eq!(
        rules(&tree),
        vec![
            Rule::ConstDecl,
            Rule::ConstName,
            Rule::Type,
            Rule::TypeClassInstanceName,
            Rule::ClassName,
        ]
    );
    assert_eq!((tree.nodes[1].start, tree.nodes[1].end), (0, 27));
    assert_eq!((tree.nodes[4].start, tree.nodes[4].end), (29, 35));
}
