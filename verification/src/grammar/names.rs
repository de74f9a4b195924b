use vstd::prelude::*;
use vstd::string::StringSliceAdditionalSpecFns;
use crate::grammar::lexical::{
    byte, lemma_agreement_bounds, lemma_run_end_bounds, literal, one, run, run_end, Class,
    UNDERSCORE,
};
use crate::grammar::step::{join, node, opt, quiet, Step};
use crate::rule::Rule;

verus! {

/// An upper-case letter and what continues the identifier.
pub open spec fn upper_ident(s: Seq<u8>, p: int) -> Step {
    let head = one(s, p, Class::Upper);
    quiet(p, join(head, run(s, head.end, Class::Word)))
}

/// A lower-case letter and what continues the identifier.
pub open spec fn lower_ident(s: Seq<u8>, p: int) -> Step {
    let head = one(s, p, Class::Lower);
    quiet(p, join(head, run(s, head.end, Class::Word)))
}

/// `_`, an upper-case letter and what continues the identifier.
pub open spec fn interface_ident(s: Seq<u8>, p: int) -> Step {
    let mark = byte(s, p, UNDERSCORE);
    let head = one(s, mark.end, Class::Upper);
    quiet(p, join(join(mark, head), run(s, head.end, Class::Word)))
}

/// One namespace segment: an upper-case identifier and `::`.
pub open spec fn segment(s: Seq<u8>, p: int) -> Step {
    let name = upper_ident(s, p);
    quiet(p, join(name, literal(s, name.end, "::".spec_bytes())))
}

/// As many namespace segments as there are at `p`; never fails.
pub open spec fn segments(s: Seq<u8>, p: int) -> Step
    decreases s.len() - p,
{
    let first = segment(s, p);
    if first.ok {
        proof {
            lemma_segment_bounds(s, p);
        }
        join(first, segments(s, first.end))
    } else {
        opt(p, first)
    }
}

/// A segment that matches is not empty and ends within the input.
pub proof fn lemma_segment_bounds(s: Seq<u8>, p: int)
    requires
        segment(s, p).ok,
    ensures
        0 <= p < segment(s, p).end <= s.len(),
{
    lemma_run_end_bounds(s, p + 1, Class::Word);
    lemma_agreement_bounds(s, run_end(s, p + 1, Class::Word), "::".spec_bytes(), 0);
}

/// The namespace in front of a name: an optional leading `::`, then any
/// number of segments; never fails.
#[verifier::opaque]
pub open spec fn namespace(s: Seq<u8>, p: int) -> Step {
    let root = opt(p, literal(s, p, "::".spec_bytes()));
    join(root, segments(s, root.end))
}

/// A name that ends in an upper-case identifier, such as `::Foo::Bar`.
#[verifier::opaque]
pub open spec fn class_name(s: Seq<u8>, p: int) -> Step {
    let ns = namespace(s, p);
    node(Rule::ClassName, p, join(ns, upper_ident(s, ns.end)))
}

/// A name that ends in `_` and an upper-case identifier, such as
/// `Foo::_Each`.
#[verifier::opaque]
pub open spec fn interface_name(s: Seq<u8>, p: int) -> Step {
    let ns = namespace(s, p);
    node(Rule::InterfaceName, p, join(ns, interface_ident(s, ns.end)))
}

/// A name that ends in a lower-case identifier, such as `Foo::bar`.
#[verifier::opaque]
pub open spec fn alias_name(s: Seq<u8>, p: int) -> Step {
    let ns = namespace(s, p);
    node(Rule::AliasName, p, join(ns, lower_ident(s, ns.end)))
}

/// The name of a constant: it has the shape of a class name.
#[verifier::opaque]
pub open spec fn const_name(s: Seq<u8>, p: int) -> Step {
    let ns = namespace(s, p);
    node(Rule::ConstName, p, join(ns, upper_ident(s, ns.end)))
}

} // verus!
