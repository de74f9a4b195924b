use vstd::prelude::*;
use vstd::string::StringSliceAdditionalSpecFns;
use crate::grammar::lexical::{byte, literal, one, run, Class, UNDERSCORE};
use crate::grammar::step::{join, opt};
use crate::grammar::names;
use crate::nesting::forest::{
    lemma_byte_nested, lemma_literal_nested, lemma_one_nested, lemma_run_nested,
};
use crate::rule::Rule;
use crate::shifting::moved::{
    lemma_byte_moved, lemma_literal_moved, lemma_moved_join, lemma_moved_node, lemma_moved_opt,
    lemma_moved_quiet, lemma_one_moved, lemma_run_moved, lemma_same_from_later, moved, same_from,
};

verus! {

/// `upper_ident` does the same where the same text stands at another offset.
pub proof fn lemma_upper_ident_moved(s: Seq<u8>, p: int, t: Seq<u8>, k: int)
    requires
        same_from(s, p, t, k),
    ensures
        names::upper_ident(t, p + k) == moved(names::upper_ident(s, p), k),
{
    lemma_one_nested(s, p, Class::Upper);
    lemma_one_moved(s, p, t, k, Class::Upper);
    let a = one(s, p, Class::Upper);
    if a.ok {
        lemma_same_from_later(s, p, t, k, a.end);
        lemma_run_nested(s, a.end, Class::Word);
        lemma_run_moved(s, a.end, t, k, Class::Word);
    }
    crate::nesting::forest::lemma_join_nested(s, p, a, run(s, a.end, Class::Word));
    lemma_moved_join(a, run(s, a.end, Class::Word), k);
    let b = join(a, run(s, a.end, Class::Word));
    lemma_moved_quiet(p, b, k);
}

/// `lower_ident` does the same where the same text stands at another offset.
pub proof fn lemma_lower_ident_moved(s: Seq<u8>, p: int, t: Seq<u8>, k: int)
    requires
        same_from(s, p, t, k),
    ensures
        names::lower_ident(t, p + k) == moved(names::lower_ident(s, p), k),
{
    lemma_one_nested(s, p, Class::Lower);
    lemma_one_moved(s, p, t, k, Class::Lower);
    let a = one(s, p, Class::Lower);
    if a.ok {
        lemma_same_from_later(s, p, t, k, a.end);
        lemma_run_nested(s, a.end, Class::Word);
        lemma_run_moved(s, a.end, t, k, Class::Word);
    }
    crate::nesting::forest::lemma_join_nested(s, p, a, run(s, a.end, Class::Word));
    lemma_moved_join(a, run(s, a.end, Class::Word), k);
    let b = join(a, run(s, a.end, Class::Word));
    lemma_moved_quiet(p, b, k);
}

/// `interface_ident` does the same where the same text stands at another offset.
pub proof fn lemma_interface_ident_moved(s: Seq<u8>, p: int, t: Seq<u8>, k: int)
    requires
        same_from(s, p, t, k),
    ensures
        names::interface_ident(t, p + k) == moved(names::interface_ident(s, p), k),
{
    lemma_byte_nested(s, p, UNDERSCORE);
    lemma_byte_moved(s, p, t, k, UNDERSCORE);
    let a = byte(s, p, UNDERSCORE);
    if a.ok {
        lemma_same_from_later(s, p, t, k, a.end);
        lemma_one_nested(s, a.end, Class::Upper);
        lemma_one_moved(s, a.end, t, k, Class::Upper);
    }
    crate::nesting::forest::lemma_join_nested(s, p, a, one(s, a.end, Class::Upper));
    lemma_moved_join(a, one(s, a.end, Class::Upper), k);
    let b = join(a, one(s, a.end, Class::Upper));
    if b.ok {
        lemma_same_from_later(s, p, t, k, b.end);
        lemma_run_nested(s, b.end, Class::Word);
        lemma_run_moved(s, b.end, t, k, Class::Word);
    }
    crate::nesting::forest::lemma_join_nested(s, p, b, run(s, b.end, Class::Word));
    lemma_moved_join(b, run(s, b.end, Class::Word), k);
    let c = join(b, run(s, b.end, Class::Word));
    lemma_moved_quiet(p, c, k);
}

/// `segment` does the same where the same text stands at another offset.
pub proof fn lemma_segment_moved(s: Seq<u8>, p: int, t: Seq<u8>, k: int)
    requires
        same_from(s, p, t, k),
    ensures
        names::segment(t, p + k) == moved(names::segment(s, p), k),
{
    crate::nesting::names::lemma_upper_ident_nested(s, p);
    crate::shifting::names::lemma_upper_ident_moved(s, p, t, k);
    let a = names::upper_ident(s, p);
    if a.ok {
        lemma_same_from_later(s, p, t, k, a.end);
        lemma_literal_nested(s, a.end, "::".spec_bytes());
        lemma_literal_moved(s, a.end, t, k, "::".spec_bytes());
    }
    crate::nesting::forest::lemma_join_nested(s, p, a, literal(s, a.end, "::".spec_bytes()));
    lemma_moved_join(a, literal(s, a.end, "::".spec_bytes()), k);
    let b = join(a, literal(s, a.end, "::".spec_bytes()));
    lemma_moved_quiet(p, b, k);
}

/// `segments` does the same where the same text stands at another offset.
pub proof fn lemma_segments_moved(s: Seq<u8>, p: int, t: Seq<u8>, k: int)
    requires
        same_from(s, p, t, k),
    ensures
        names::segments(t, p + k) == moved(names::segments(s, p), k),
    decreases s.len() - p,
{
    let item = names::segment(s, p);
    crate::nesting::names::lemma_segment_nested(s, p);
    crate::shifting::names::lemma_segment_moved(s, p, t, k);
    if item.ok {
        crate::grammar::names::lemma_segment_bounds(s, p);
        lemma_same_from_later(s, p, t, k, item.end);
        lemma_segments_moved(s, item.end, t, k);
        lemma_moved_join(item, names::segments(s, item.end), k);
    } else {
        lemma_moved_opt(p, item, k);
    }
}

/// `namespace` does the same where the same text stands at another offset.
pub proof fn lemma_namespace_moved(s: Seq<u8>, p: int, t: Seq<u8>, k: int)
    requires
        same_from(s, p, t, k),
    ensures
        names::namespace(t, p + k) == moved(names::namespace(s, p), k),
{
    reveal(names::namespace);
    lemma_literal_nested(s, p, "::".spec_bytes());
    lemma_literal_moved(s, p, t, k, "::".spec_bytes());
    lemma_moved_opt(p, literal(s, p, "::".spec_bytes()), k);
    let a = opt(p, literal(s, p, "::".spec_bytes()));
    if a.ok {
        lemma_same_from_later(s, p, t, k, a.end);
        crate::nesting::names::lemma_segments_nested(s, a.end);
        crate::shifting::names::lemma_segments_moved(s, a.end, t, k);
    }
    crate::nesting::forest::lemma_join_nested(s, p, a, names::segments(s, a.end));
    lemma_moved_join(a, names::segments(s, a.end), k);
    let b = join(a, names::segments(s, a.end));
}

/// `class_name` does the same where the same text stands at another offset.
pub proof fn lemma_class_name_moved(s: Seq<u8>, p: int, t: Seq<u8>, k: int)
    requires
        same_from(s, p, t, k),
    ensures
        names::class_name(t, p + k) == moved(names::class_name(s, p), k),
{
    reveal(names::class_name);
    crate::nesting::names::lemma_namespace_nested(s, p);
    crate::shifting::names::lemma_namespace_moved(s, p, t, k);
    let a = names::namespace(s, p);
    if a.ok {
        lemma_same_from_later(s, p, t, k, a.end);
        crate::nesting::names::lemma_upper_ident_nested(s, a.end);
        crate::shifting::names::lemma_upper_ident_moved(s, a.end, t, k);
    }
    crate::nesting::forest::lemma_join_nested(s, p, a, names::upper_ident(s, a.end));
    lemma_moved_join(a, names::upper_ident(s, a.end), k);
    let b = join(a, names::upper_ident(s, a.end));
    lemma_moved_node(Rule::ClassName, p, b, k);
}

/// `interface_name` does the same where the same text stands at another offset.
pub proof fn lemma_interface_name_moved(s: Seq<u8>, p: int, t: Seq<u8>, k: int)
    requires
        same_from(s, p, t, k),
    ensures
        names::interface_name(t, p + k) == moved(names::interface_name(s, p), k),
{
    reveal(names::interface_name);
    crate::nesting::names::lemma_namespace_nested(s, p);
    crate::shifting::names::lemma_namespace_moved(s, p, t, k);
    let a = names::namespace(s, p);
    if a.ok {
        lemma_same_from_later(s, p, t, k, a.end);
        crate::nesting::names::lemma_interface_ident_nested(s, a.end);
        crate::shifting::names::lemma_interface_ident_moved(s, a.end, t, k);
    }
    crate::nesting::forest::lemma_join_nested(s, p, a, names::interface_ident(s, a.end));
    lemma_moved_join(a, names::interface_ident(s, a.end), k);
    let b = join(a, names::interface_ident(s, a.end));
    lemma_moved_node(Rule::InterfaceName, p, b, k);
}

/// `alias_name` does the same where the same text stands at another offset.
pub proof fn lemma_alias_name_moved(s: Seq<u8>, p: int, t: Seq<u8>, k: int)
    requires
        same_from(s, p, t, k),
    ensures
        names::alias_name(t, p + k) == moved(names::alias_name(s, p), k),
{
    reveal(names::alias_name);
    crate::nesting::names::lemma_namespace_nested(s, p);
    crate::shifting::names::lemma_namespace_moved(s, p, t, k);
    let a = names::namespace(s, p);
    if a.ok {
        lemma_same_from_later(s, p, t, k, a.end);
        crate::nesting::names::lemma_lower_ident_nested(s, a.end);
        crate::shifting::names::lemma_lower_ident_moved(s, a.end, t, k);
    }
    crate::nesting::forest::lemma_join_nested(s, p, a, names::lower_ident(s, a.end));
    lemma_moved_join(a, names::lower_ident(s, a.end), k);
    let b = join(a, names::lower_ident(s, a.end));
    lemma_moved_node(Rule::AliasName, p, b, k);
}

/// `const_name` does the same where the same text stands at another offset.
pub proof fn lemma_const_name_moved(s: Seq<u8>, p: int, t: Seq<u8>, k: int)
    requires
        same_from(s, p, t, k),
    ensures
        names::const_name(t, p + k) == moved(names::const_name(s, p), k),
{
    reveal(names::const_name);
    crate::nesting::names::lemma_namespace_nested(s, p);
    crate::shifting::names::lemma_namespace_moved(s, p, t, k);
    let a = names::namespace(s, p);
    if a.ok {
        lemma_same_from_later(s, p, t, k, a.end);
        crate::nesting::names::lemma_upper_ident_nested(s, a.end);
        crate::shifting::names::lemma_upper_ident_moved(s, a.end, t, k);
    }
    crate::nesting::forest::lemma_join_nested(s, p, a, names::upper_ident(s, a.end));
    lemma_moved_join(a, names::upper_ident(s, a.end), k);
    let b = join(a, names::upper_ident(s, a.end));
    lemma_moved_node(Rule::ConstName, p, b, k);
}

} // verus!
