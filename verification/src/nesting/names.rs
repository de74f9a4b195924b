use vstd::prelude::*;
use vstd::string::StringSliceAdditionalSpecFns;
use crate::grammar::lexical::{byte, literal, one, run, Class, UNDERSCORE};
use crate::grammar::step::{join, opt};
use crate::grammar::names;
use crate::nesting::forest::{
    lemma_byte_nested, lemma_join_nested, lemma_literal_nested, lemma_node_nested,
    lemma_one_nested, lemma_opt_nested, lemma_quiet_nested, lemma_run_nested, nested,
};
use crate::rule::Rule;

verus! {

/// What `upper_ident` makes of any input is well behaved.
pub proof fn lemma_upper_ident_nested(s: Seq<u8>, p: int)
    requires
        0 <= p <= s.len(),
    ensures
        nested(s, p, names::upper_ident(s, p)),
{
    lemma_one_nested(s, p, Class::Upper);
    let a = one(s, p, Class::Upper);
    if a.ok {
        lemma_run_nested(s, a.end, Class::Word);
    }
    lemma_join_nested(s, p, a, run(s, a.end, Class::Word));
    let b = join(a, run(s, a.end, Class::Word));
    lemma_quiet_nested(s, p, b);
}

/// What `lower_ident` makes of any input is well behaved.
pub proof fn lemma_lower_ident_nested(s: Seq<u8>, p: int)
    requires
        0 <= p <= s.len(),
    ensures
        nested(s, p, names::lower_ident(s, p)),
{
    lemma_one_nested(s, p, Class::Lower);
    let a = one(s, p, Class::Lower);
    if a.ok {
        lemma_run_nested(s, a.end, Class::Word);
    }
    lemma_join_nested(s, p, a, run(s, a.end, Class::Word));
    let b = join(a, run(s, a.end, Class::Word));
    lemma_quiet_nested(s, p, b);
}

/// What `interface_ident` makes of any input is well behaved.
pub proof fn lemma_interface_ident_nested(s: Seq<u8>, p: int)
    requires
        0 <= p <= s.len(),
    ensures
        nested(s, p, names::interface_ident(s, p)),
{
    lemma_byte_nested(s, p, UNDERSCORE);
    let a = byte(s, p, UNDERSCORE);
    if a.ok {
        lemma_one_nested(s, a.end, Class::Upper);
    }
    lemma_join_nested(s, p, a, one(s, a.end, Class::Upper));
    let b = join(a, one(s, a.end, Class::Upper));
    if b.ok {
        lemma_run_nested(s, b.end, Class::Word);
    }
    lemma_join_nested(s, p, b, run(s, b.end, Class::Word));
    let c = join(b, run(s, b.end, Class::Word));
    lemma_quiet_nested(s, p, c);
}

/// What `segment` makes of any input is well behaved.
pub proof fn lemma_segment_nested(s: Seq<u8>, p: int)
    requires
        0 <= p <= s.len(),
    ensures
        nested(s, p, names::segment(s, p)),
{
    crate::nesting::names::lemma_upper_ident_nested(s, p);
    let a = names::upper_ident(s, p);
    if a.ok {
        lemma_literal_nested(s, a.end, "::".spec_bytes());
    }
    lemma_join_nested(s, p, a, literal(s, a.end, "::".spec_bytes()));
    let b = join(a, literal(s, a.end, "::".spec_bytes()));
    lemma_quiet_nested(s, p, b);
}

/// What `segments` makes of any input is well behaved.
pub proof fn lemma_segments_nested(s: Seq<u8>, p: int)
    requires
        0 <= p <= s.len(),
    ensures
        nested(s, p, names::segments(s, p)),
    decreases s.len() - p,
{
    let item = names::segment(s, p);
    crate::nesting::names::lemma_segment_nested(s, p);
    if item.ok {
        crate::grammar::names::lemma_segment_bounds(s, p);
        lemma_segments_nested(s, item.end);
        lemma_join_nested(s, p, item, names::segments(s, item.end));
    } else {
        lemma_opt_nested(s, p, item);
    }
}

/// What `namespace` makes of any input is well behaved.
pub proof fn lemma_namespace_nested(s: Seq<u8>, p: int)
    requires
        0 <= p <= s.len(),
    ensures
        nested(s, p, names::namespace(s, p)),
{
    reveal(names::namespace);
    lemma_literal_nested(s, p, "::".spec_bytes());
    lemma_opt_nested(s, p, literal(s, p, "::".spec_bytes()));
    let a = opt(p, literal(s, p, "::".spec_bytes()));
    if a.ok {
        crate::nesting::names::lemma_segments_nested(s, a.end);
    }
    lemma_join_nested(s, p, a, names::segments(s, a.end));
    let b = join(a, names::segments(s, a.end));
}

/// What `class_name` makes of any input is well behaved.
pub proof fn lemma_class_name_nested(s: Seq<u8>, p: int)
    requires
        0 <= p <= s.len(),
    ensures
        nested(s, p, names::class_name(s, p)),
{
    reveal(names::class_name);
    crate::nesting::names::lemma_namespace_nested(s, p);
    let a = names::namespace(s, p);
    if a.ok {
        crate::nesting::names::lemma_upper_ident_nested(s, a.end);
    }
    lemma_join_nested(s, p, a, names::upper_ident(s, a.end));
    let b = join(a, names::upper_ident(s, a.end));
    lemma_node_nested(s, Rule::ClassName, p, b);
}

/// What `interface_name` makes of any input is well behaved.
pub proof fn lemma_interface_name_nested(s: Seq<u8>, p: int)
    requires
        0 <= p <= s.len(),
    ensures
        nested(s, p, names::interface_name(s, p)),
{
    reveal(names::interface_name);
    crate::nesting::names::lemma_namespace_nested(s, p);
    let a = names::namespace(s, p);
    if a.ok {
        crate::nesting::names::lemma_interface_ident_nested(s, a.end);
    }
    lemma_join_nested(s, p, a, names::interface_ident(s, a.end));
    let b = join(a, names::interface_ident(s, a.end));
    lemma_node_nested(s, Rule::InterfaceName, p, b);
}

/// What `alias_name` makes of any input is well behaved.
pub proof fn lemma_alias_name_nested(s: Seq<u8>, p: int)
    requires
        0 <= p <= s.len(),
    ensures
        nested(s, p, names::alias_name(s, p)),
{
    reveal(names::alias_name);
    crate::nesting::names::lemma_namespace_nested(s, p);
    let a = names::namespace(s, p);
    if a.ok {
        crate::nesting::names::lemma_lower_ident_nested(s, a.end);
    }
    lemma_join_nested(s, p, a, names::lower_ident(s, a.end));
    let b = join(a, names::lower_ident(s, a.end));
    lemma_node_nested(s, Rule::AliasName, p, b);
}

/// What `const_name` makes of any input is well behaved.
pub proof fn lemma_const_name_nested(s: Seq<u8>, p: int)
    requires
        0 <= p <= s.len(),
    ensures
        nested(s, p, names::const_name(s, p)),
{
    reveal(names::const_name);
    crate::nesting::names::lemma_namespace_nested(s, p);
    let a = names::namespace(s, p);
    if a.ok {
        crate::nesting::names::lemma_upper_ident_nested(s, a.end);
    }
    lemma_join_nested(s, p, a, names::upper_ident(s, a.end));
    let b = join(a, names::upper_ident(s, a.end));
    lemma_node_nested(s, Rule::ConstName, p, b);
}

} // verus!
