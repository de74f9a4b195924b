//! What holds of the grammar as a whole, stated over the functions of
//! [`crate::grammar`] and proved from their definitions.

use vstd::prelude::*;
use vstd::string::StringSliceAdditionalSpecFns;
use crate::grammar::lexical::{
    byte, keyword, literal, trivia, Class, LEFT_BRACKET, LEFT_PAREN, ZERO,
};
use crate::grammar::step::{join, opt};
use crate::grammar::literals::{digits, literal_integer, more_digits, radix_integer};
use crate::grammar::names::{
    class_name, interface_name, lemma_segment_bounds, namespace, segment, segments,
};
use crate::grammar::rules::{accepts, production, tree_of};
use crate::grammar::types::{
    singleton_front, spaced_type_arguments, type_class_instance_name, type_interface_name,
    type_singleton_class_name,
};
use crate::locality::agreeing::at;
use crate::locality::rules::lemma_production_local;
use crate::nesting::rules::{lemma_production_nested, lemma_tree_well_formed};
use crate::rule::Rule;
use crate::shifting::moved::moved;
use crate::shifting::rules::lemma_production_moved;
use crate::tree::NodeView;

verus! {

/// No position in any input starts both a class name and an interface
/// name: behind the namespace the one goes on with an upper-case letter,
/// the other with `_`.
pub proof fn lemma_class_and_interface_names_exclusive(s: Seq<u8>, p: int)
    ensures
        !(class_name(s, p).ok && interface_name(s, p).ok),
        !(type_class_instance_name(s, p).ok && type_interface_name(s, p).ok),
{
    reveal(class_name);
    reveal(interface_name);
    reveal_with_fuel(type_class_instance_name, 1);
    reveal_with_fuel(type_interface_name, 1);
}

/// No input is accepted both as a class name and as an interface name,
/// with or without type arguments.
pub proof fn lemma_class_and_interface_exclusive(s: Seq<u8>)
    ensures
        !(accepts(Rule::TypeClassInstanceName, s) && accepts(Rule::TypeInterfaceName, s)),
        !(accepts(Rule::ClassName, s) && accepts(Rule::InterfaceName, s)),
{
    lemma_class_and_interface_names_exclusive(s, 0);
}

/// A singleton type is `singleton`, `(`, a class name and `)`: where a `[`
/// stands behind the class name, however much white space lies around the
/// name, the production fails.
pub proof fn lemma_singleton_rejects_type_arguments(s: Seq<u8>, p: int)
    requires
        byte(s, singleton_front(s, p).end, LEFT_BRACKET).ok,
    ensures
        !type_singleton_class_name(s, p).ok,
{
    reveal(type_singleton_class_name);
}

/// The tree of a singleton type holds the singleton node and the node of
/// its class name, and nothing else: no type arguments.
pub proof fn lemma_singleton_tree(s: Seq<u8>, p: int)
    requires
        type_singleton_class_name(s, p).ok,
    ensures
        type_singleton_class_name(s, p).nodes.len() == 2,
        type_singleton_class_name(s, p).nodes[0].rule == Rule::TypeSingletonClassName,
        type_singleton_class_name(s, p).nodes[1].rule == Rule::ClassName,
{
    reveal(type_singleton_class_name);
    let front = singleton_front(s, p);
    lemma_class_name_is_one_node(s, front.end);
    let a = keyword(s, p, "singleton".spec_bytes());
    let b = join(a, trivia(s, a.end));
    let c = join(b, byte(s, b.end, LEFT_PAREN));
    let d = join(c, trivia(s, c.end));
    lemma_class_name_is_one_node(s, d.end);
}

/// Namespace segments leave no node.
pub proof fn lemma_segments_leave_no_node(s: Seq<u8>, p: int)
    ensures
        segments(s, p).ok,
        segments(s, p).nodes =~= Seq::<NodeView>::empty(),
    decreases s.len() - p,
{
    let first = segment(s, p);
    if first.ok {
        lemma_segment_bounds(s, p);
        lemma_segments_leave_no_node(s, first.end);
    }
}

/// A class name that matches leaves exactly its own node.
pub proof fn lemma_class_name_is_one_node(s: Seq<u8>, p: int)
    ensures
        class_name(s, p).ok ==> class_name(s, p).nodes.len() == 1 && class_name(
            s,
            p,
        ).nodes[0].rule == Rule::ClassName,
{
    reveal(class_name);
    reveal(namespace);
    let root = opt(p, literal(s, p, "::".spec_bytes()));
    lemma_segments_leave_no_node(s, root.end);
}

/// No input with a `[` behind the class name is accepted as a singleton
/// type.
pub proof fn lemma_singleton_with_type_arguments_not_accepted(s: Seq<u8>)
    requires
        byte(s, singleton_front(s, 0).end, LEFT_BRACKET).ok,
    ensures
        !accepts(Rule::TypeSingletonClassName, s),
{
    lemma_singleton_rejects_type_arguments(s, 0);
}

/// Whether every byte of `d` is a decimal digit.
pub open spec fn all_digits(d: Seq<u8>) -> bool {
    forall|i: int| 0 <= i < d.len() ==> Class::Digit.has(#[trigger] d[i])
}

/// Whether every byte of `d` is an octal digit.
pub open spec fn all_octal(d: Seq<u8>) -> bool {
    forall|i: int| 0 <= i < d.len() ==> Class::Octal.has(#[trigger] d[i])
}

/// Where the input from `p` on is made of decimal digits, further octal
/// digits run to the end of the input exactly when all of them are octal.
pub proof fn lemma_octal_run(s: Seq<u8>, p: int)
    requires
        0 <= p <= s.len(),
        forall|i: int| p <= i < s.len() ==> Class::Digit.has(#[trigger] s[i]),
    ensures
        more_digits(s, p, Class::Octal).ok,
        p <= more_digits(s, p, Class::Octal).end <= s.len(),
        more_digits(s, p, Class::Octal).end == s.len() <==> forall|i: int|
            p <= i < s.len() ==> Class::Octal.has(#[trigger] s[i]),
    decreases s.len() - p,
{
    if p < s.len() {
        assert(Class::Digit.has(s[p]));
        if Class::Octal.has(s[p]) {
            lemma_octal_run(s, p + 1);
        }
    }
}

/// An octal literal with its radix letter, `0o` or `0O` and then decimal
/// digits, is accepted exactly when none of the digits is `8` or `9`.
pub proof fn lemma_octal_literal(letter: u8, d: Seq<u8>)
    requires
        letter == 0x6f || letter == 0x4f,
        d.len() > 0,
        all_digits(d),
    ensures
        accepts(Rule::LiteralInteger, seq![ZERO, letter] + d) <==> all_octal(d),
{
    let s = seq![ZERO, letter] + d;
    reveal(literal_integer);
    reveal(radix_integer);
    assert(s[0] == ZERO && s[1] == letter);
    assert forall|i: int| 2 <= i < s.len() implies Class::Digit.has(#[trigger] s[i]) by {
        assert(s[i] == d[i - 2]);
    }
    assert(s[2] == d[0]);
    lemma_octal_run(s, 3);
    if all_octal(d) {
        assert forall|i: int| 3 <= i < s.len() implies Class::Octal.has(#[trigger] s[i]) by {
            assert(s[i] == d[i - 2]);
        }
        assert(Class::Octal.has(s[2]));
    }
    if accepts(Rule::LiteralInteger, s) {
        assert forall|i: int| 0 <= i < d.len() implies Class::Octal.has(#[trigger] d[i]) by {
            assert(d[i] == s[i + 2]);
        }
    }
}

/// An octal literal without a radix letter, `0` and then decimal digits,
/// is accepted exactly when none of the digits is `8` or `9`.
pub proof fn lemma_zero_octal_literal(d: Seq<u8>)
    requires
        all_digits(d),
    ensures
        accepts(Rule::LiteralInteger, seq![ZERO] + d) <==> all_octal(d),
{
    let s = seq![ZERO] + d;
    reveal(literal_integer);
    reveal(radix_integer);
    assert(s[0] == ZERO);
    assert forall|i: int| 1 <= i < s.len() implies Class::Digit.has(#[trigger] s[i]) by {
        assert(s[i] == d[i - 1]);
    }
    lemma_octal_run(s, 1);
    if all_octal(d) {
        assert forall|i: int| 1 <= i < s.len() implies Class::Octal.has(#[trigger] s[i]) by {
            assert(s[i] == d[i - 1]);
        }
    }
    if accepts(Rule::LiteralInteger, s) {
        assert forall|i: int| 0 <= i < d.len() implies Class::Octal.has(#[trigger] d[i]) by {
            assert(d[i] == s[i + 1]);
        }
    }
}

/// Parsing the span that a whole parse matched gives the same tree: a
/// production that has to match the whole input matches all of it, so the
/// span of the root is the input itself.
pub proof fn lemma_reparse_whole(rule: Rule, s: Seq<u8>)
    requires
        accepts(rule, s),
        !rule.allows_trailing(),
    ensures
        ({
            let root = tree_of(rule, s)[0];
            let span = s.subrange(root.start, root.end);
            span == s && accepts(rule, span) && tree_of(rule, span) == tree_of(rule, s)
        }),
{
    lemma_tree_well_formed(rule, s);
    let root = tree_of(rule, s)[0];
    assert(s.subrange(root.start, root.end) =~= s);
}

/// Parsing the span that a production matched, anywhere in any input,
/// gives the same match with its offsets counted from the start of the
/// span, provided the production looked at nothing behind its match.
pub proof fn lemma_reparse_span(rule: Rule, s: Seq<u8>, p: int)
    requires
        0 <= p <= s.len(),
        production(rule, s, p).ok,
        production(rule, s, p).seen <= production(rule, s, p).end,
    ensures
        ({
            let st = production(rule, s, p);
            production(rule, s.subrange(p, st.end), 0) == moved(st, -p)
        }),
{
    let st = production(rule, s, p);
    lemma_production_nested(rule, s, p);
    let head = s.subrange(0, st.end);
    let span = s.subrange(p, st.end);
    assert forall|i: int| 0 <= i < st.seen implies #[trigger] at(s, i) == at(head, i) by {}
    lemma_production_local(rule, s, head, p);
    assert forall|j: int| p <= j implies #[trigger] at(head, j) == at(span, j + (-p)) by {}
    lemma_production_moved(rule, head, p, span, -p);
}

/// A name with type arguments that is accepted as a whole is its own
/// matched span, and parsing that span again gives the same tree.
pub proof fn lemma_generic_name_reparse(s: Seq<u8>)
    requires
        accepts(Rule::TypeClassInstanceName, s),
    ensures
        ({
            let tree = tree_of(Rule::TypeClassInstanceName, s);
            let span = s.subrange(tree[0].start, tree[0].end);
            accepts(Rule::TypeClassInstanceName, span) && tree_of(
                Rule::TypeClassInstanceName,
                span,
            ) == tree
        }),
{
    lemma_reparse_whole(Rule::TypeClassInstanceName, s);
}

/// Parsing the span that a class name with type arguments matched,
/// anywhere in any input, gives the same tree with its offsets counted
/// from the start of the span.
pub proof fn lemma_generic_class_name_reparse(s: Seq<u8>, p: int)
    requires
        0 <= p <= s.len(),
        type_class_instance_name(s, p).ok,
        spaced_type_arguments(s, class_name(s, p).end).ok,
    ensures
        ({
            let st = type_class_instance_name(s, p);
            type_class_instance_name(s.subrange(p, st.end), 0) == moved(st, -p)
        }),
{
    crate::reach::types::lemma_type_class_instance_name_reach(s, p);
    lemma_reparse_span(Rule::TypeClassInstanceName, s, p);
}

/// Parsing the span that an interface name with type arguments matched,
/// anywhere in any input, gives the same tree with its offsets counted
/// from the start of the span.
pub proof fn lemma_generic_interface_name_reparse(s: Seq<u8>, p: int)
    requires
        0 <= p <= s.len(),
        type_interface_name(s, p).ok,
        spaced_type_arguments(s, interface_name(s, p).end).ok,
    ensures
        ({
            let st = type_interface_name(s, p);
            type_interface_name(s.subrange(p, st.end), 0) == moved(st, -p)
        }),
{
    crate::reach::types::lemma_type_interface_name_reach(s, p);
    lemma_reparse_span(Rule::TypeInterfaceName, s, p);
}

} // verus!
