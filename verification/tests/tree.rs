use rbsby::declarations::parse_class_decl;
use rbsby::members::parse_method;
use rbsby::types::parse_class_instance_name;
use rbsby::{Rule, SyntaxTree};

fn spans_nest(tree: &SyntaxTree, i: usize) {
    let parent = tree.node(i);
    let mut last = parent.start;
    let mut count = 1;
    for k in tree.children(i) {
        let child = tree.node(k);
        assert!(last <= child.start);
        assert!(child.start < child.end);
        assert!(child.end <= parent.end);
        last = child.end;
        count += child.size;
        spans_nest(tree, k);
    }
    assert_eq!(count, parent.size);
}

#[test]
fn children_of_a_node() {
    let tree = parse_method("def self?.baz: (A, B) -> C").unwrap();
    assert_eq!(tree.len(), 14);
    assert_eq!(tree.children(0), vec![1, 2, 3]);
    assert_eq!(tree.node(3).rule, Rule::MethodType);
    assert_eq!(tree.children(3), vec![4, 11]);
    assert_eq!(tree.children(4), vec![5, 8]);
    assert_eq!(tree.children(1), Vec::<usize>::new());
    assert_eq!(tree.node(4).rule, Rule::Params);
    assert_eq!(tree.node(11).rule, Rule::Type);
}

#[test]
fn spans_of_children_lie_in_order_inside_their_parent() {
    let texts = [
        "class Foo[unchecked out T < _Each[T], in U] < Bar[T, Array[U]]\n  include _Each[T]\n  alias self.a self.b\n  attr_reader x (@y): singleton(Foo)\n  def self?.go: (Integer, :sym, 'str') -> 0x1f\nend",
        "class Foo\nend",
    ];
    for text in texts {
        let tree = parse_class_decl(text).unwrap();
        assert_eq!(tree.node(0).start, 0);
        assert_eq!(tree.node(0).end, text.len());
        assert_eq!(tree.node(0).size, tree.len());
        spans_nest(&tree, 0);
    }
}

#[test]
fn root_of_a_whole_parse_spans_the_input() {
    let text = "Foo::Bar[ A , _B[C] ]";
    let tree = parse_class_instance_name(text).unwrap();
    assert_eq!((tree.node(0).start, tree.node(0).end), (0, text.len()));
    assert_eq!(tree.node(0).size, tree.len());
    spans_nest(&tree, 0);
}
