use vstd::prelude::*;
use vstd::string::StringSliceAdditionalSpecFns;
use crate::grammar::lexical::{
    byte, keyword, lemma_trivia_end_bounds, trivia, COMMA, LEFT_BRACKET, LEFT_PAREN,
    RIGHT_BRACKET, RIGHT_PAREN,
};
use crate::grammar::literals::literal_value;
use crate::grammar::names::{alias_name, class_name, interface_name};
use crate::grammar::step::{either, fail, join, node, opt, quiet, Step};
use crate::rule::Rule;

verus! {

/// The front of a singleton type: `singleton`, `(` and a class name, with
/// the white space around them, up to where `)` has to stand.
pub open spec fn singleton_front(s: Seq<u8>, p: int) -> Step {
    let a = keyword(s, p, "singleton".spec_bytes());
    let b = join(a, trivia(s, a.end));
    let c = join(b, byte(s, b.end, LEFT_PAREN));
    let d = join(c, trivia(s, c.end));
    let e = join(d, class_name(s, d.end));
    join(e, trivia(s, e.end))
}

/// `singleton`, and a class name in parentheses, with white space allowed
/// around the parentheses. The name takes no type arguments.
#[verifier::opaque]
pub open spec fn type_singleton_class_name(s: Seq<u8>, p: int) -> Step {
    let front = singleton_front(s, p);
    node(Rule::TypeSingletonClassName, p, join(front, byte(s, front.end, RIGHT_PAREN)))
}

/// Whether the attempt `st`, made at `p`, matched and ended at or after
/// `p`, within the input. Every attempt that matches does; the grammar
/// asks where it goes on from the end of a type, so that it plainly never
/// goes back.
pub open spec fn forward(s: Seq<u8>, p: int, st: Step) -> bool {
    st.ok && p <= st.end <= s.len()
}

/// Any type expression: a singleton class, an interface, a class instance,
/// an alias or a literal, tried in this order.
#[verifier::opaque]
pub open spec fn type_expr(s: Seq<u8>, p: int) -> Step
    decreases s.len() - p, 5int,
{
    node(
        Rule::Type,
        p,
        either(
            type_singleton_class_name(s, p),
            either(
                type_interface_name(s, p),
                either(
                    type_class_instance_name(s, p),
                    either(type_alias_name(s, p), literal_value(s, p)),
                ),
            ),
        ),
    )
}

/// White space and type arguments, where `name` was matched just before
/// `p`; the part of a named type that may be missing.
#[verifier::opaque]
pub open spec fn spaced_type_arguments(s: Seq<u8>, p: int) -> Step
    decreases s.len() - p, 3int,
{
    let sp = trivia(s, p);
    if 0 <= p <= s.len() {
        proof {
            lemma_trivia_end_bounds(s, p, false);
        }
        quiet(p, join(sp, type_arguments(s, sp.end)))
    } else {
        fail(p, sp.seen)
    }
}

/// A class name and, optionally, type arguments.
#[verifier::opaque]
pub open spec fn type_class_instance_name(s: Seq<u8>, p: int) -> Step
    decreases s.len() - p, 4int,
{
    let name = class_name(s, p);
    node(
        Rule::TypeClassInstanceName,
        p,
        if forward(s, p, name) {
            join(name, opt(name.end, spaced_type_arguments(s, name.end)))
        } else {
            fail(p, name.seen)
        },
    )
}

/// An interface name and, optionally, type arguments.
#[verifier::opaque]
pub open spec fn type_interface_name(s: Seq<u8>, p: int) -> Step
    decreases s.len() - p, 4int,
{
    let name = interface_name(s, p);
    node(
        Rule::TypeInterfaceName,
        p,
        if forward(s, p, name) {
            join(name, opt(name.end, spaced_type_arguments(s, name.end)))
        } else {
            fail(p, name.seen)
        },
    )
}

/// An alias name and, optionally, type arguments.
#[verifier::opaque]
pub open spec fn type_alias_name(s: Seq<u8>, p: int) -> Step
    decreases s.len() - p, 4int,
{
    let name = alias_name(s, p);
    node(
        Rule::TypeAliasName,
        p,
        if forward(s, p, name) {
            join(name, opt(name.end, spaced_type_arguments(s, name.end)))
        } else {
            fail(p, name.seen)
        },
    )
}

/// `[`, one or more types between commas, and `]`, with white space
/// allowed around brackets and commas.
#[verifier::opaque]
pub open spec fn type_arguments(s: Seq<u8>, p: int) -> Step
    decreases s.len() - p, 2int,
{
    let a = byte(s, p, LEFT_BRACKET);
    if a.ok {
        proof {
            lemma_trivia_end_bounds(s, p + 1, false);
        }
        let b = join(a, trivia(s, a.end));
        let c = join(b, type_list(s, b.end));
        let d = join(c, trivia(s, c.end));
        node(Rule::TypeArguments, p, join(d, byte(s, d.end, RIGHT_BRACKET)))
    } else {
        fail(p, a.seen)
    }
}

/// One or more types between commas.
#[verifier::opaque]
pub open spec fn type_list(s: Seq<u8>, p: int) -> Step
    decreases s.len() - p, 6int,
{
    let first = type_expr(s, p);
    if forward(s, p, first) {
        join(first, more_types(s, first.end))
    } else {
        fail(p, first.seen)
    }
}

/// A comma and a type, with white space allowed around the comma.
#[verifier::opaque]
pub open spec fn comma_type(s: Seq<u8>, p: int) -> Step
    decreases s.len() - p, 0int,
{
    let a = trivia(s, p);
    let b = join(a, byte(s, a.end, COMMA));
    if 0 <= p <= s.len() && b.ok {
        proof {
            lemma_trivia_end_bounds(s, p, false);
            lemma_trivia_end_bounds(s, b.end, false);
        }
        let c = join(b, trivia(s, b.end));
        quiet(p, join(c, type_expr(s, c.end)))
    } else {
        fail(p, b.seen)
    }
}

/// As many further types, each behind a comma, as there are at `p`; never
/// fails.
#[verifier::opaque]
pub open spec fn more_types(s: Seq<u8>, p: int) -> Step
    decreases s.len() - p, 1int,
{
    let item = comma_type(s, p);
    if item.ok && p < item.end <= s.len() {
        join(item, more_types(s, item.end))
    } else {
        opt(p, item)
    }
}

} // verus!
