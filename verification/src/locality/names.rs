use vstd::prelude::*;
use vstd::string::StringSliceAdditionalSpecFns;
use crate::grammar::lexical::{byte, literal, one, run, Class, UNDERSCORE};
use crate::grammar::step::{join, opt};
use crate::grammar::names;
use crate::locality::agreeing::{
    agree, lemma_agree_length, lemma_agree_less, lemma_byte_local, lemma_literal_local,
    lemma_one_local, lemma_run_local,
};
use crate::nesting::forest::{
    lemma_byte_nested, lemma_literal_nested, lemma_one_nested, lemma_run_nested,
};

verus! {

/// `upper_ident` does the same on two inputs that agree in what it looked at.
pub proof fn lemma_upper_ident_local(s: Seq<u8>, t: Seq<u8>, p: int)
    requires
        0 <= p <= s.len(),
        agree(s, t, names::upper_ident(s, p).seen),
    ensures
        names::upper_ident(t, p) == names::upper_ident(s, p),
{
    let n = names::upper_ident(s, p).seen;
    lemma_one_nested(s, p, Class::Upper);
    lemma_agree_less(s, t, n, one(s, p, Class::Upper).seen);
    lemma_one_local(s, t, p, Class::Upper);
    let a = one(s, p, Class::Upper);
    if a.ok {
        lemma_agree_length(s, t, n, a.end);
        lemma_run_nested(s, a.end, Class::Word);
        lemma_agree_less(s, t, n, run(s, a.end, Class::Word).seen);
        lemma_run_local(s, t, a.end, Class::Word);
    }
    crate::nesting::forest::lemma_join_nested(s, p, a, run(s, a.end, Class::Word));
    let b = join(a, run(s, a.end, Class::Word));
}

/// `lower_ident` does the same on two inputs that agree in what it looked at.
pub proof fn lemma_lower_ident_local(s: Seq<u8>, t: Seq<u8>, p: int)
    requires
        0 <= p <= s.len(),
        agree(s, t, names::lower_ident(s, p).seen),
    ensures
        names::lower_ident(t, p) == names::lower_ident(s, p),
{
    let n = names::lower_ident(s, p).seen;
    lemma_one_nested(s, p, Class::Lower);
    lemma_agree_less(s, t, n, one(s, p, Class::Lower).seen);
    lemma_one_local(s, t, p, Class::Lower);
    let a = one(s, p, Class::Lower);
    if a.ok {
        lemma_agree_length(s, t, n, a.end);
        lemma_run_nested(s, a.end, Class::Word);
        lemma_agree_less(s, t, n, run(s, a.end, Class::Word).seen);
        lemma_run_local(s, t, a.end, Class::Word);
    }
    crate::nesting::forest::lemma_join_nested(s, p, a, run(s, a.end, Class::Word));
    let b = join(a, run(s, a.end, Class::Word));
}

/// `interface_ident` does the same on two inputs that agree in what it looked at.
pub proof fn lemma_interface_ident_local(s: Seq<u8>, t: Seq<u8>, p: int)
    requires
        0 <= p <= s.len(),
        agree(s, t, names::interface_ident(s, p).seen),
    ensures
        names::interface_ident(t, p) == names::interface_ident(s, p),
{
    let n = names::interface_ident(s, p).seen;
    lemma_byte_nested(s, p, UNDERSCORE);
    lemma_agree_less(s, t, n, byte(s, p, UNDERSCORE).seen);
    lemma_byte_local(s, t, p, UNDERSCORE);
    let a = byte(s, p, UNDERSCORE);
    if a.ok {
        lemma_agree_length(s, t, n, a.end);
        lemma_one_nested(s, a.end, Class::Upper);
        lemma_agree_less(s, t, n, one(s, a.end, Class::Upper).seen);
        lemma_one_local(s, t, a.end, Class::Upper);
    }
    crate::nesting::forest::lemma_join_nested(s, p, a, one(s, a.end, Class::Upper));
    let b = join(a, one(s, a.end, Class::Upper));
    if b.ok {
        lemma_agree_length(s, t, n, b.end);
        lemma_run_nested(s, b.end, Class::Word);
        lemma_agree_less(s, t, n, run(s, b.end, Class::Word).seen);
        lemma_run_local(s, t, b.end, Class::Word);
    }
    crate::nesting::forest::lemma_join_nested(s, p, b, run(s, b.end, Class::Word));
    let c = join(b, run(s, b.end, Class::Word));
}

/// `segment` does the same on two inputs that agree in what it looked at.
pub proof fn lemma_segment_local(s: Seq<u8>, t: Seq<u8>, p: int)
    requires
        0 <= p <= s.len(),
        agree(s, t, names::segment(s, p).seen),
    ensures
        names::segment(t, p) == names::segment(s, p),
{
    let n = names::segment(s, p).seen;
    crate::nesting::names::lemma_upper_ident_nested(s, p);
    lemma_agree_less(s, t, n, names::upper_ident(s, p).seen);
    crate::locality::names::lemma_upper_ident_local(s, t, p);
    let a = names::upper_ident(s, p);
    if a.ok {
        lemma_agree_length(s, t, n, a.end);
        lemma_literal_nested(s, a.end, "::".spec_bytes());
        lemma_agree_less(s, t, n, literal(s, a.end, "::".spec_bytes()).seen);
        lemma_literal_local(s, t, a.end, "::".spec_bytes());
    }
    crate::nesting::forest::lemma_join_nested(s, p, a, literal(s, a.end, "::".spec_bytes()));
    let b = join(a, literal(s, a.end, "::".spec_bytes()));
}

/// `segments` does the same on two inputs that agree in what it looked at.
pub proof fn lemma_segments_local(s: Seq<u8>, t: Seq<u8>, p: int)
    requires
        0 <= p <= s.len(),
        agree(s, t, names::segments(s, p).seen),
    ensures
        names::segments(t, p) == names::segments(s, p),
    decreases s.len() - p,
{
    let n = names::segments(s, p).seen;
    let item = names::segment(s, p);
    crate::nesting::names::lemma_segment_nested(s, p);
    lemma_agree_less(s, t, n, names::segment(s, p).seen);
    crate::locality::names::lemma_segment_local(s, t, p);
    if item.ok {
        crate::grammar::names::lemma_segment_bounds(s, p);
        lemma_agree_length(s, t, n, item.end);
        lemma_agree_less(s, t, n, names::segments(s, item.end).seen);
        lemma_segments_local(s, t, item.end);
    }
}

/// `namespace` does the same on two inputs that agree in what it looked at.
pub proof fn lemma_namespace_local(s: Seq<u8>, t: Seq<u8>, p: int)
    requires
        0 <= p <= s.len(),
        agree(s, t, names::namespace(s, p).seen),
    ensures
        names::namespace(t, p) == names::namespace(s, p),
{
    reveal(names::namespace);
    let n = names::namespace(s, p).seen;
    lemma_literal_nested(s, p, "::".spec_bytes());
    lemma_agree_less(s, t, n, literal(s, p, "::".spec_bytes()).seen);
    lemma_literal_local(s, t, p, "::".spec_bytes());
    let a = opt(p, literal(s, p, "::".spec_bytes()));
    if a.ok {
        lemma_agree_length(s, t, n, a.end);
        crate::nesting::names::lemma_segments_nested(s, a.end);
        lemma_agree_less(s, t, n, names::segments(s, a.end).seen);
        crate::locality::names::lemma_segments_local(s, t, a.end);
    }
    crate::nesting::forest::lemma_join_nested(s, p, a, names::segments(s, a.end));
    let b = join(a, names::segments(s, a.end));
}

/// `class_name` does the same on two inputs that agree in what it looked at.
pub proof fn lemma_class_name_local(s: Seq<u8>, t: Seq<u8>, p: int)
    requires
        0 <= p <= s.len(),
        agree(s, t, names::class_name(s, p).seen),
    ensures
        names::class_name(t, p) == names::class_name(s, p),
{
    reveal(names::class_name);
    let n = names::class_name(s, p).seen;
    crate::nesting::names::lemma_namespace_nested(s, p);
    lemma_agree_less(s, t, n, names::namespace(s, p).seen);
    crate::locality::names::lemma_namespace_local(s, t, p);
    let a = names::namespace(s, p);
    if a.ok {
        lemma_agree_length(s, t, n, a.end);
        crate::nesting::names::lemma_upper_ident_nested(s, a.end);
        lemma_agree_less(s, t, n, names::upper_ident(s, a.end).seen);
        crate::locality::names::lemma_upper_ident_local(s, t, a.end);
    }
    crate::nesting::forest::lemma_join_nested(s, p, a, names::upper_ident(s, a.end));
    let b = join(a, names::upper_ident(s, a.end));
}

/// `interface_name` does the same on two inputs that agree in what it looked at.
pub proof fn lemma_interface_name_local(s: Seq<u8>, t: Seq<u8>, p: int)
    requires
        0 <= p <= s.len(),
        agree(s, t, names::interface_name(s, p).seen),
    ensures
        names::interface_name(t, p) == names::interface_name(s, p),
{
    reveal(names::interface_name);
    let n = names::interface_name(s, p).seen;
    crate::nesting::names::lemma_namespace_nested(s, p);
    lemma_agree_less(s, t, n, names::namespace(s, p).seen);
    crate::locality::names::lemma_namespace_local(s, t, p);
    let a = names::namespace(s, p);
    if a.ok {
        lemma_agree_length(s, t, n, a.end);
        crate::nesting::names::lemma_interface_ident_nested(s, a.end);
        lemma_agree_less(s, t, n, names::interface_ident(s, a.end).seen);
        crate::locality::names::lemma_interface_ident_local(s, t, a.end);
    }
    crate::nesting::forest::lemma_join_nested(s, p, a, names::interface_ident(s, a.end));
    let b = join(a, names::interface_ident(s, a.end));
}

/// `alias_name` does the same on two inputs that agree in what it looked at.
pub proof fn lemma_alias_name_local(s: Seq<u8>, t: Seq<u8>, p: int)
    requires
        0 <= p <= s.len(),
        agree(s, t, names::alias_name(s, p).seen),
    ensures
        names::alias_name(t, p) == names::alias_name(s, p),
{
    reveal(names::alias_name);
    let n = names::alias_name(s, p).seen;
    crate::nesting::names::lemma_namespace_nested(s, p);
    lemma_agree_less(s, t, n, names::namespace(s, p).seen);
    crate::locality::names::lemma_namespace_local(s, t, p);
    let a = names::namespace(s, p);
    if a.ok {
        lemma_agree_length(s, t, n, a.end);
        crate::nesting::names::lemma_lower_ident_nested(s, a.end);
        lemma_agree_less(s, t, n, names::lower_ident(s, a.end).seen);
        crate::locality::names::lemma_lower_ident_local(s, t, a.end);
    }
    crate::nesting::forest::lemma_join_nested(s, p, a, names::lower_ident(s, a.end));
    let b = join(a, names::lower_ident(s, a.end));
}

/// `const_name` does the same on two inputs that agree in what it looked at.
pub proof fn lemma_const_name_local(s: Seq<u8>, t: Seq<u8>, p: int)
    requires
        0 <= p <= s.len(),
        agree(s, t, names::const_name(s, p).seen),
    ensures
        names::const_name(t, p) == names::const_name(s, p),
{
    reveal(names::const_name);
    let n = names::const_name(s, p).seen;
    crate::nesting::names::lemma_namespace_nested(s, p);
    lemma_agree_less(s, t, n, names::namespace(s, p).seen);
    crate::locality::names::lemma_namespace_local(s, t, p);
    let a = names::namespace(s, p);
    if a.ok {
        lemma_agree_length(s, t, n, a.end);
        crate::nesting::names::lemma_upper_ident_nested(s, a.end);
        lemma_agree_less(s, t, n, names::upper_ident(s, a.end).seen);
        crate::locality::names::lemma_upper_ident_local(s, t, a.end);
    }
    crate::nesting::forest::lemma_join_nested(s, p, a, names::upper_ident(s, a.end));
    let b = join(a, names::upper_ident(s, a.end));
}

} // verus!
