use vstd::prelude::*;
use vstd::string::StringSliceAdditionalSpecFns;
use crate::firmness::firm::{firm, lemma_join_firm, lemma_node_firm};
use crate::grammar::lexical::{byte, literal, one, run, Class, UNDERSCORE};
use crate::grammar::step::{join, opt};
use crate::grammar::names;
use crate::nesting::forest::{
    lemma_byte_nested, lemma_join_nested, lemma_literal_nested, lemma_one_nested, lemma_opt_nested,
    lemma_run_nested,
};
use crate::rule::Rule;

verus! {

/// Every node that `upper_ident` leaves spans something.
pub proof fn lemma_upper_ident_firm(s: Seq<u8>, p: int)
    requires
        0 <= p <= s.len(),
    ensures
        firm(names::upper_ident(s, p)),
{
    lemma_one_nested(s, p, Class::Upper);
    let a = one(s, p, Class::Upper);
    if a.ok {
        lemma_run_nested(s, a.end, Class::Word);
    }
    crate::nesting::forest::lemma_join_nested(s, p, a, run(s, a.end, Class::Word));
    lemma_join_firm(a, run(s, a.end, Class::Word));
    let b = join(a, run(s, a.end, Class::Word));
}

/// Every node that `lower_ident` leaves spans something.
pub proof fn lemma_lower_ident_firm(s: Seq<u8>, p: int)
    requires
        0 <= p <= s.len(),
    ensures
        firm(names::lower_ident(s, p)),
{
    lemma_one_nested(s, p, Class::Lower);
    let a = one(s, p, Class::Lower);
    if a.ok {
        lemma_run_nested(s, a.end, Class::Word);
    }
    crate::nesting::forest::lemma_join_nested(s, p, a, run(s, a.end, Class::Word));
    lemma_join_firm(a, run(s, a.end, Class::Word));
    let b = join(a, run(s, a.end, Class::Word));
}

/// Every node that `interface_ident` leaves spans something.
pub proof fn lemma_interface_ident_firm(s: Seq<u8>, p: int)
    requires
        0 <= p <= s.len(),
    ensures
        firm(names::interface_ident(s, p)),
{
    lemma_byte_nested(s, p, UNDERSCORE);
    let a = byte(s, p, UNDERSCORE);
    if a.ok {
        lemma_one_nested(s, a.end, Class::Upper);
    }
    crate::nesting::forest::lemma_join_nested(s, p, a, one(s, a.end, Class::Upper));
    lemma_join_firm(a, one(s, a.end, Class::Upper));
    let b = join(a, one(s, a.end, Class::Upper));
    if b.ok {
        lemma_run_nested(s, b.end, Class::Word);
    }
    crate::nesting::forest::lemma_join_nested(s, p, b, run(s, b.end, Class::Word));
    lemma_join_firm(b, run(s, b.end, Class::Word));
    let c = join(b, run(s, b.end, Class::Word));
}

/// Every node that `segment` leaves spans something.
pub proof fn lemma_segment_firm(s: Seq<u8>, p: int)
    requires
        0 <= p <= s.len(),
    ensures
        firm(names::segment(s, p)),
{
    crate::nesting::names::lemma_upper_ident_nested(s, p);
    crate::firmness::names::lemma_upper_ident_firm(s, p);
    let a = names::upper_ident(s, p);
    if a.ok {
        lemma_literal_nested(s, a.end, "::".spec_bytes());
    }
    crate::nesting::forest::lemma_join_nested(s, p, a, literal(s, a.end, "::".spec_bytes()));
    lemma_join_firm(a, literal(s, a.end, "::".spec_bytes()));
    let b = join(a, literal(s, a.end, "::".spec_bytes()));
}

/// Every node that `segments` leaves spans something.
pub proof fn lemma_segments_firm(s: Seq<u8>, p: int)
    requires
        0 <= p <= s.len(),
    ensures
        firm(names::segments(s, p)),
    decreases s.len() - p,
{
    let item = names::segment(s, p);
    crate::nesting::names::lemma_segment_nested(s, p);
    crate::firmness::names::lemma_segment_firm(s, p);
    if item.ok {
        crate::grammar::names::lemma_segment_bounds(s, p);
        lemma_segments_firm(s, item.end);
        lemma_join_firm(item, names::segments(s, item.end));
    }
}

/// Every node that `namespace` leaves spans something.
pub proof fn lemma_namespace_firm(s: Seq<u8>, p: int)
    requires
        0 <= p <= s.len(),
    ensures
        firm(names::namespace(s, p)),
{
    reveal(names::namespace);
    lemma_literal_nested(s, p, "::".spec_bytes());
    lemma_opt_nested(s, p, literal(s, p, "::".spec_bytes()));
    let a = opt(p, literal(s, p, "::".spec_bytes()));
    if a.ok {
        crate::nesting::names::lemma_segments_nested(s, a.end);
        crate::firmness::names::lemma_segments_firm(s, a.end);
    }
    crate::nesting::forest::lemma_join_nested(s, p, a, names::segments(s, a.end));
    lemma_join_firm(a, names::segments(s, a.end));
    let b = join(a, names::segments(s, a.end));
}

/// Every node that `class_name` leaves spans something.
pub proof fn lemma_class_name_firm(s: Seq<u8>, p: int)
    requires
        0 <= p <= s.len(),
    ensures
        firm(names::class_name(s, p)),
{
    reveal(names::class_name);
    crate::nesting::names::lemma_namespace_nested(s, p);
    crate::firmness::names::lemma_namespace_firm(s, p);
    let a = names::namespace(s, p);
    if a.ok {
        crate::nesting::names::lemma_upper_ident_nested(s, a.end);
        crate::firmness::names::lemma_upper_ident_firm(s, a.end);
    }
    crate::nesting::forest::lemma_join_nested(s, p, a, names::upper_ident(s, a.end));
    lemma_join_firm(a, names::upper_ident(s, a.end));
    let b = join(a, names::upper_ident(s, a.end));
    crate::progress::names::lemma_class_name_progress(s, p);
    lemma_node_firm(Rule::ClassName, p, b);
}

/// Every node that `interface_name` leaves spans something.
pub proof fn lemma_interface_name_firm(s: Seq<u8>, p: int)
    requires
        0 <= p <= s.len(),
    ensures
        firm(names::interface_name(s, p)),
{
    reveal(names::interface_name);
    crate::nesting::names::lemma_namespace_nested(s, p);
    crate::firmness::names::lemma_namespace_firm(s, p);
    let a = names::namespace(s, p);
    if a.ok {
        crate::nesting::names::lemma_interface_ident_nested(s, a.end);
        crate::firmness::names::lemma_interface_ident_firm(s, a.end);
    }
    crate::nesting::forest::lemma_join_nested(s, p, a, names::interface_ident(s, a.end));
    lemma_join_firm(a, names::interface_ident(s, a.end));
    let b = join(a, names::interface_ident(s, a.end));
    crate::progress::names::lemma_interface_name_progress(s, p);
    lemma_node_firm(Rule::InterfaceName, p, b);
}

/// Every node that `alias_name` leaves spans something.
pub proof fn lemma_alias_name_firm(s: Seq<u8>, p: int)
    requires
        0 <= p <= s.len(),
    ensures
        firm(names::alias_name(s, p)),
{
    reveal(names::alias_name);
    crate::nesting::names::lemma_namespace_nested(s, p);
    crate::firmness::names::lemma_namespace_firm(s, p);
    let a = names::namespace(s, p);
    if a.ok {
        crate::nesting::names::lemma_lower_ident_nested(s, a.end);
        crate::firmness::names::lemma_lower_ident_firm(s, a.end);
    }
    crate::nesting::forest::lemma_join_nested(s, p, a, names::lower_ident(s, a.end));
    lemma_join_firm(a, names::lower_ident(s, a.end));
    let b = join(a, names::lower_ident(s, a.end));
    crate::progress::names::lemma_alias_name_progress(s, p);
    lemma_node_firm(Rule::AliasName, p, b);
}

/// Every node that `const_name` leaves spans something.
pub proof fn lemma_const_name_firm(s: Seq<u8>, p: int)
    requires
        0 <= p <= s.len(),
    ensures
        firm(names::const_name(s, p)),
{
    reveal(names::const_name);
    crate::nesting::names::lemma_namespace_nested(s, p);
    crate::firmness::names::lemma_namespace_firm(s, p);
    let a = names::namespace(s, p);
    if a.ok {
        crate::nesting::names::lemma_upper_ident_nested(s, a.end);
        crate::firmness::names::lemma_upper_ident_firm(s, a.end);
    }
    crate::nesting::forest::lemma_join_nested(s, p, a, names::upper_ident(s, a.end));
    lemma_join_firm(a, names::upper_ident(s, a.end));
    let b = join(a, names::upper_ident(s, a.end));
    crate::progress::names::lemma_const_name_progress(s, p);
    lemma_node_firm(Rule::ConstName, p, b);
}

} // verus!
