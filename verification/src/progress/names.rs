use vstd::prelude::*;
use crate::grammar::lexical::{byte, one, run, Class, UNDERSCORE};
use crate::grammar::step::join;
use crate::grammar::names;
use crate::nesting::forest::{
    lemma_byte_nested, lemma_join_nested, lemma_one_nested, lemma_run_nested,
};

verus! {

/// `upper_ident` matches nothing empty.
pub proof fn lemma_upper_ident_progress(s: Seq<u8>, p: int)
    requires
        0 <= p <= s.len(),
    ensures
        names::upper_ident(s, p).ok ==> p < names::upper_ident(s, p).end <= s.len(),
{
    crate::nesting::names::lemma_upper_ident_nested(s, p);
    lemma_one_nested(s, p, Class::Upper);
    let a = one(s, p, Class::Upper);
    if a.ok {
        lemma_run_nested(s, a.end, Class::Word);
    }
    crate::nesting::forest::lemma_join_nested(s, p, a, run(s, a.end, Class::Word));
    let b = join(a, run(s, a.end, Class::Word));
}

/// `lower_ident` matches nothing empty.
pub proof fn lemma_lower_ident_progress(s: Seq<u8>, p: int)
    requires
        0 <= p <= s.len(),
    ensures
        names::lower_ident(s, p).ok ==> p < names::lower_ident(s, p).end <= s.len(),
{
    crate::nesting::names::lemma_lower_ident_nested(s, p);
    lemma_one_nested(s, p, Class::Lower);
    let a = one(s, p, Class::Lower);
    if a.ok {
        lemma_run_nested(s, a.end, Class::Word);
    }
    crate::nesting::forest::lemma_join_nested(s, p, a, run(s, a.end, Class::Word));
    let b = join(a, run(s, a.end, Class::Word));
}

/// `interface_ident` matches nothing empty.
pub proof fn lemma_interface_ident_progress(s: Seq<u8>, p: int)
    requires
        0 <= p <= s.len(),
    ensures
        names::interface_ident(s, p).ok ==> p < names::interface_ident(s, p).end <= s.len(),
{
    crate::nesting::names::lemma_interface_ident_nested(s, p);
    lemma_byte_nested(s, p, UNDERSCORE);
    let a = byte(s, p, UNDERSCORE);
    if a.ok {
        lemma_one_nested(s, a.end, Class::Upper);
    }
    crate::nesting::forest::lemma_join_nested(s, p, a, one(s, a.end, Class::Upper));
    let b = join(a, one(s, a.end, Class::Upper));
    if b.ok {
        lemma_run_nested(s, b.end, Class::Word);
    }
    crate::nesting::forest::lemma_join_nested(s, p, b, run(s, b.end, Class::Word));
    let c = join(b, run(s, b.end, Class::Word));
}

/// `class_name` matches nothing empty.
pub proof fn lemma_class_name_progress(s: Seq<u8>, p: int)
    requires
        0 <= p <= s.len(),
    ensures
        names::class_name(s, p).ok ==> p < names::class_name(s, p).end <= s.len(),
{
    reveal(names::class_name);
    crate::nesting::names::lemma_class_name_nested(s, p);
    crate::nesting::names::lemma_namespace_nested(s, p);
    let a = names::namespace(s, p);
    if a.ok {
        crate::nesting::names::lemma_upper_ident_nested(s, a.end);
        crate::progress::names::lemma_upper_ident_progress(s, a.end);
    }
    crate::nesting::forest::lemma_join_nested(s, p, a, names::upper_ident(s, a.end));
    let b = join(a, names::upper_ident(s, a.end));
}

/// `interface_name` matches nothing empty.
pub proof fn lemma_interface_name_progress(s: Seq<u8>, p: int)
    requires
        0 <= p <= s.len(),
    ensures
        names::interface_name(s, p).ok ==> p < names::interface_name(s, p).end <= s.len(),
{
    reveal(names::interface_name);
    crate::nesting::names::lemma_interface_name_nested(s, p);
    crate::nesting::names::lemma_namespace_nested(s, p);
    let a = names::namespace(s, p);
    if a.ok {
        crate::nesting::names::lemma_interface_ident_nested(s, a.end);
        crate::progress::names::lemma_interface_ident_progress(s, a.end);
    }
    crate::nesting::forest::lemma_join_nested(s, p, a, names::interface_ident(s, a.end));
    let b = join(a, names::interface_ident(s, a.end));
}

/// `alias_name` matches nothing empty.
pub proof fn lemma_alias_name_progress(s: Seq<u8>, p: int)
    requires
        0 <= p <= s.len(),
    ensures
        names::alias_name(s, p).ok ==> p < names::alias_name(s, p).end <= s.len(),
{
    reveal(names::alias_name);
    crate::nesting::names::lemma_alias_name_nested(s, p);
    crate::nesting::names::lemma_namespace_nested(s, p);
    let a = names::namespace(s, p);
    if a.ok {
        crate::nesting::names::lemma_lower_ident_nested(s, a.end);
        crate::progress::names::lemma_lower_ident_progress(s, a.end);
    }
    crate::nesting::forest::lemma_join_nested(s, p, a, names::lower_ident(s, a.end));
    let b = join(a, names::lower_ident(s, a.end));
}

/// `const_name` matches nothing empty.
pub proof fn lemma_const_name_progress(s: Seq<u8>, p: int)
    requires
        0 <= p <= s.len(),
    ensures
        names::const_name(s, p).ok ==> p < names::const_name(s, p).end <= s.len(),
{
    reveal(names::const_name);
    crate::nesting::names::lemma_const_name_nested(s, p);
    crate::nesting::names::lemma_namespace_nested(s, p);
    let a = names::namespace(s, p);
    if a.ok {
        crate::nesting::names::lemma_upper_ident_nested(s, a.end);
        crate::progress::names::lemma_upper_ident_progress(s, a.end);
    }
    crate::nesting::forest::lemma_join_nested(s, p, a, names::upper_ident(s, a.end));
    let b = join(a, names::upper_ident(s, a.end));
}

} // verus!
