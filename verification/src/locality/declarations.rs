use vstd::prelude::*;
use vstd::string::StringSliceAdditionalSpecFns;
use crate::grammar::lexical::{
    byte, keyword, trivia, COLON, COMMA, LEFT_BRACKET, LESS, RIGHT_BRACKET,
};
use crate::grammar::step::{either, join, opt};
use crate::grammar::{declarations, members, names, types};
use crate::locality::agreeing::{
    agree, lemma_agree_length, lemma_agree_less, lemma_byte_local, lemma_keyword_local,
    lemma_trivia_local,
};
use crate::nesting::forest::{lemma_byte_nested, lemma_keyword_nested, lemma_trivia_nested};

verus! {

/// `unchecked` does the same on two inputs that agree in what it looked at.
pub proof fn lemma_unchecked_local(s: Seq<u8>, t: Seq<u8>, p: int)
    requires
        0 <= p <= s.len(),
        agree(s, t, declarations::unchecked(s, p).seen),
    ensures
        declarations::unchecked(t, p) == declarations::unchecked(s, p),
{
    reveal(declarations::unchecked);
    let n = declarations::unchecked(s, p).seen;
    lemma_keyword_nested(s, p, "unchecked".spec_bytes());
    lemma_agree_less(s, t, n, keyword(s, p, "unchecked".spec_bytes()).seen);
    lemma_keyword_local(s, t, p, "unchecked".spec_bytes());
    let a = keyword(s, p, "unchecked".spec_bytes());
}

/// `variance_out` does the same on two inputs that agree in what it looked at.
pub proof fn lemma_variance_out_local(s: Seq<u8>, t: Seq<u8>, p: int)
    requires
        0 <= p <= s.len(),
        agree(s, t, declarations::variance_out(s, p).seen),
    ensures
        declarations::variance_out(t, p) == declarations::variance_out(s, p),
{
    reveal(declarations::variance_out);
    let n = declarations::variance_out(s, p).seen;
    lemma_keyword_nested(s, p, "out".spec_bytes());
    lemma_agree_less(s, t, n, keyword(s, p, "out".spec_bytes()).seen);
    lemma_keyword_local(s, t, p, "out".spec_bytes());
    let a = keyword(s, p, "out".spec_bytes());
}

/// `variance_in` does the same on two inputs that agree in what it looked at.
pub proof fn lemma_variance_in_local(s: Seq<u8>, t: Seq<u8>, p: int)
    requires
        0 <= p <= s.len(),
        agree(s, t, declarations::variance_in(s, p).seen),
    ensures
        declarations::variance_in(t, p) == declarations::variance_in(s, p),
{
    reveal(declarations::variance_in);
    let n = declarations::variance_in(s, p).seen;
    lemma_keyword_nested(s, p, "in".spec_bytes());
    lemma_agree_less(s, t, n, keyword(s, p, "in".spec_bytes()).seen);
    lemma_keyword_local(s, t, p, "in".spec_bytes());
    let a = keyword(s, p, "in".spec_bytes());
}

/// `spaced_unchecked` does the same on two inputs that agree in what it looked at.
pub proof fn lemma_spaced_unchecked_local(s: Seq<u8>, t: Seq<u8>, p: int)
    requires
        0 <= p <= s.len(),
        agree(s, t, declarations::spaced_unchecked(s, p).seen),
    ensures
        declarations::spaced_unchecked(t, p) == declarations::spaced_unchecked(s, p),
{
    reveal(declarations::spaced_unchecked);
    let n = declarations::spaced_unchecked(s, p).seen;
    crate::nesting::declarations::lemma_unchecked_nested(s, p);
    lemma_agree_less(s, t, n, declarations::unchecked(s, p).seen);
    crate::locality::declarations::lemma_unchecked_local(s, t, p);
    let a = declarations::unchecked(s, p);
    if a.ok {
        lemma_agree_length(s, t, n, a.end);
        lemma_trivia_nested(s, a.end);
        lemma_agree_less(s, t, n, trivia(s, a.end).seen);
        lemma_trivia_local(s, t, a.end);
    }
    crate::nesting::forest::lemma_join_nested(s, p, a, trivia(s, a.end));
    let b = join(a, trivia(s, a.end));
}

/// `spaced_variance` does the same on two inputs that agree in what it looked at.
pub proof fn lemma_spaced_variance_local(s: Seq<u8>, t: Seq<u8>, p: int)
    requires
        0 <= p <= s.len(),
        agree(s, t, declarations::spaced_variance(s, p).seen),
    ensures
        declarations::spaced_variance(t, p) == declarations::spaced_variance(s, p),
{
    reveal(declarations::spaced_variance);
    let n = declarations::spaced_variance(s, p).seen;
    crate::nesting::declarations::lemma_variance_out_nested(s, p);
    lemma_agree_less(s, t, n, declarations::variance_out(s, p).seen);
    crate::locality::declarations::lemma_variance_out_local(s, t, p);
    if !declarations::variance_out(s, p).ok {
        crate::nesting::declarations::lemma_variance_in_nested(s, p);
        lemma_agree_less(s, t, n, declarations::variance_in(s, p).seen);
        crate::locality::declarations::lemma_variance_in_local(s, t, p);
    }
    let a = either(declarations::variance_out(s, p), declarations::variance_in(s, p));
    if a.ok {
        lemma_agree_length(s, t, n, a.end);
        lemma_trivia_nested(s, a.end);
        lemma_agree_less(s, t, n, trivia(s, a.end).seen);
        lemma_trivia_local(s, t, a.end);
    }
    crate::nesting::forest::lemma_join_nested(s, p, a, trivia(s, a.end));
    let b = join(a, trivia(s, a.end));
}

/// `modifiers` does the same on two inputs that agree in what it looked at.
pub proof fn lemma_modifiers_local(s: Seq<u8>, t: Seq<u8>, p: int)
    requires
        0 <= p <= s.len(),
        agree(s, t, declarations::modifiers(s, p).seen),
    ensures
        declarations::modifiers(t, p) == declarations::modifiers(s, p),
{
    reveal(declarations::modifiers);
    let n = declarations::modifiers(s, p).seen;
    let a = declarations::spaced_unchecked(s, p);
    crate::nesting::declarations::lemma_spaced_unchecked_nested(s, p);
    lemma_agree_less(s, t, n, a.seen);
    lemma_spaced_unchecked_local(s, t, p);
    if a.ok {
        lemma_agree_length(s, t, n, a.end);
        crate::nesting::declarations::lemma_spaced_variance_nested(s, a.end);
        lemma_agree_less(s, t, n, declarations::spaced_variance(s, a.end).seen);
        lemma_spaced_variance_local(s, t, a.end);
    } else {
        let b = declarations::spaced_variance(s, p);
        crate::nesting::declarations::lemma_spaced_variance_nested(s, p);
        lemma_agree_less(s, t, n, b.seen);
        lemma_spaced_variance_local(s, t, p);
        if b.ok {
            lemma_agree_length(s, t, n, b.end);
            crate::nesting::declarations::lemma_spaced_unchecked_nested(s, b.end);
            lemma_agree_less(s, t, n, declarations::spaced_unchecked(s, b.end).seen);
            lemma_spaced_unchecked_local(s, t, b.end);
        }
    }
}

/// `type_param_name` does the same on two inputs that agree in what it looked at.
pub proof fn lemma_type_param_name_local(s: Seq<u8>, t: Seq<u8>, p: int)
    requires
        0 <= p <= s.len(),
        agree(s, t, declarations::type_param_name(s, p).seen),
    ensures
        declarations::type_param_name(t, p) == declarations::type_param_name(s, p),
{
    reveal(declarations::type_param_name);
    let n = declarations::type_param_name(s, p).seen;
    crate::nesting::names::lemma_upper_ident_nested(s, p);
    lemma_agree_less(s, t, n, names::upper_ident(s, p).seen);
    crate::locality::names::lemma_upper_ident_local(s, t, p);
    let a = names::upper_ident(s, p);
}

/// `bound` does the same on two inputs that agree in what it looked at.
pub proof fn lemma_bound_local(s: Seq<u8>, t: Seq<u8>, p: int)
    requires
        0 <= p <= s.len(),
        agree(s, t, declarations::bound(s, p).seen),
    ensures
        declarations::bound(t, p) == declarations::bound(s, p),
{
    reveal(declarations::bound);
    let n = declarations::bound(s, p).seen;
    lemma_trivia_nested(s, p);
    lemma_agree_less(s, t, n, trivia(s, p).seen);
    lemma_trivia_local(s, t, p);
    let a = trivia(s, p);
    if a.ok {
        lemma_agree_length(s, t, n, a.end);
        lemma_byte_nested(s, a.end, LESS);
        lemma_agree_less(s, t, n, byte(s, a.end, LESS).seen);
        lemma_byte_local(s, t, a.end, LESS);
    }
    crate::nesting::forest::lemma_join_nested(s, p, a, byte(s, a.end, LESS));
    let b = join(a, byte(s, a.end, LESS));
    if b.ok {
        lemma_agree_length(s, t, n, b.end);
        lemma_trivia_nested(s, b.end);
        lemma_agree_less(s, t, n, trivia(s, b.end).seen);
        lemma_trivia_local(s, t, b.end);
    }
    crate::nesting::forest::lemma_join_nested(s, p, b, trivia(s, b.end));
    let c = join(b, trivia(s, b.end));
    if c.ok {
        lemma_agree_length(s, t, n, c.end);
        crate::nesting::types::lemma_type_expr_nested(s, c.end);
        lemma_agree_less(s, t, n, types::type_expr(s, c.end).seen);
        crate::locality::types::lemma_type_expr_local(s, t, c.end);
    }
    crate::nesting::forest::lemma_join_nested(s, p, c, types::type_expr(s, c.end));
    let d = join(c, types::type_expr(s, c.end));
}

/// `type_param` does the same on two inputs that agree in what it looked at.
pub proof fn lemma_type_param_local(s: Seq<u8>, t: Seq<u8>, p: int)
    requires
        0 <= p <= s.len(),
        agree(s, t, declarations::type_param(s, p).seen),
    ensures
        declarations::type_param(t, p) == declarations::type_param(s, p),
{
    reveal(declarations::type_param);
    let n = declarations::type_param(s, p).seen;
    crate::nesting::declarations::lemma_modifiers_nested(s, p);
    lemma_agree_less(s, t, n, declarations::modifiers(s, p).seen);
    crate::locality::declarations::lemma_modifiers_local(s, t, p);
    let a = opt(p, declarations::modifiers(s, p));
    if a.ok {
        lemma_agree_length(s, t, n, a.end);
        crate::nesting::declarations::lemma_type_param_name_nested(s, a.end);
        lemma_agree_less(s, t, n, declarations::type_param_name(s, a.end).seen);
        crate::locality::declarations::lemma_type_param_name_local(s, t, a.end);
    }
    crate::nesting::forest::lemma_join_nested(s, p, a, declarations::type_param_name(s, a.end));
    let b = join(a, declarations::type_param_name(s, a.end));
    if b.ok {
        lemma_agree_length(s, t, n, b.end);
        crate::nesting::declarations::lemma_bound_nested(s, b.end);
        lemma_agree_less(s, t, n, declarations::bound(s, b.end).seen);
        crate::locality::declarations::lemma_bound_local(s, t, b.end);
    }
    crate::nesting::forest::lemma_join_nested(s, p, b, opt(b.end, declarations::bound(s, b.end)));
    let c = join(b, opt(b.end, declarations::bound(s, b.end)));
}

/// `comma_type_param` does the same on two inputs that agree in what it looked at.
pub proof fn lemma_comma_type_param_local(s: Seq<u8>, t: Seq<u8>, p: int)
    requires
        0 <= p <= s.len(),
        agree(s, t, declarations::comma_type_param(s, p).seen),
    ensures
        declarations::comma_type_param(t, p) == declarations::comma_type_param(s, p),
{
    reveal(declarations::comma_type_param);
    let n = declarations::comma_type_param(s, p).seen;
    lemma_trivia_nested(s, p);
    lemma_agree_less(s, t, n, trivia(s, p).seen);
    lemma_trivia_local(s, t, p);
    let a = trivia(s, p);
    if a.ok {
        lemma_agree_length(s, t, n, a.end);
        lemma_byte_nested(s, a.end, COMMA);
        lemma_agree_less(s, t, n, byte(s, a.end, COMMA).seen);
        lemma_byte_local(s, t, a.end, COMMA);
    }
    crate::nesting::forest::lemma_join_nested(s, p, a, byte(s, a.end, COMMA));
    let b = join(a, byte(s, a.end, COMMA));
    if b.ok {
        lemma_agree_length(s, t, n, b.end);
        lemma_trivia_nested(s, b.end);
        lemma_agree_less(s, t, n, trivia(s, b.end).seen);
        lemma_trivia_local(s, t, b.end);
    }
    crate::nesting::forest::lemma_join_nested(s, p, b, trivia(s, b.end));
    let c = join(b, trivia(s, b.end));
    if c.ok {
        lemma_agree_length(s, t, n, c.end);
        crate::nesting::declarations::lemma_type_param_nested(s, c.end);
        lemma_agree_less(s, t, n, declarations::type_param(s, c.end).seen);
        crate::locality::declarations::lemma_type_param_local(s, t, c.end);
    }
    crate::nesting::forest::lemma_join_nested(s, p, c, declarations::type_param(s, c.end));
    let d = join(c, declarations::type_param(s, c.end));
}

/// `more_type_params` does the same on two inputs that agree in what it looked at.
pub proof fn lemma_more_type_params_local(s: Seq<u8>, t: Seq<u8>, p: int)
    requires
        0 <= p <= s.len(),
        agree(s, t, declarations::more_type_params(s, p).seen),
    ensures
        declarations::more_type_params(t, p) == declarations::more_type_params(s, p),
    decreases s.len() - p,
{
    reveal_with_fuel(declarations::more_type_params, 1);
    let n = declarations::more_type_params(s, p).seen;
    let item = declarations::comma_type_param(s, p);
    crate::nesting::declarations::lemma_comma_type_param_nested(s, p);
    lemma_agree_less(s, t, n, declarations::comma_type_param(s, p).seen);
    crate::locality::declarations::lemma_comma_type_param_local(s, t, p);
    if item.ok && p < item.end <= s.len() {
        lemma_agree_length(s, t, n, item.end);
        lemma_agree_less(s, t, n, declarations::more_type_params(s, item.end).seen);
        lemma_more_type_params_local(s, t, item.end);
    }
}

/// `type_params` does the same on two inputs that agree in what it looked at.
pub proof fn lemma_type_params_local(s: Seq<u8>, t: Seq<u8>, p: int)
    requires
        0 <= p <= s.len(),
        agree(s, t, declarations::type_params(s, p).seen),
    ensures
        declarations::type_params(t, p) == declarations::type_params(s, p),
{
    reveal(declarations::type_params);
    let n = declarations::type_params(s, p).seen;
    lemma_byte_nested(s, p, LEFT_BRACKET);
    lemma_agree_less(s, t, n, byte(s, p, LEFT_BRACKET).seen);
    lemma_byte_local(s, t, p, LEFT_BRACKET);
    let a = byte(s, p, LEFT_BRACKET);
    if a.ok {
        lemma_agree_length(s, t, n, a.end);
        lemma_trivia_nested(s, a.end);
        lemma_agree_less(s, t, n, trivia(s, a.end).seen);
        lemma_trivia_local(s, t, a.end);
    }
    crate::nesting::forest::lemma_join_nested(s, p, a, trivia(s, a.end));
    let b = join(a, trivia(s, a.end));
    if b.ok {
        lemma_agree_length(s, t, n, b.end);
        crate::nesting::declarations::lemma_type_param_nested(s, b.end);
        lemma_agree_less(s, t, n, declarations::type_param(s, b.end).seen);
        crate::locality::declarations::lemma_type_param_local(s, t, b.end);
    }
    crate::nesting::forest::lemma_join_nested(s, p, b, declarations::type_param(s, b.end));
    let c = join(b, declarations::type_param(s, b.end));
    if c.ok {
        lemma_agree_length(s, t, n, c.end);
        crate::nesting::declarations::lemma_more_type_params_nested(s, c.end);
        lemma_agree_less(s, t, n, declarations::more_type_params(s, c.end).seen);
        crate::locality::declarations::lemma_more_type_params_local(s, t, c.end);
    }
    crate::nesting::forest::lemma_join_nested(s, p, c, declarations::more_type_params(s, c.end));
    let d = join(c, declarations::more_type_params(s, c.end));
    if d.ok {
        lemma_agree_length(s, t, n, d.end);
        lemma_trivia_nested(s, d.end);
        lemma_agree_less(s, t, n, trivia(s, d.end).seen);
        lemma_trivia_local(s, t, d.end);
    }
    crate::nesting::forest::lemma_join_nested(s, p, d, trivia(s, d.end));
    let e = join(d, trivia(s, d.end));
    if e.ok {
        lemma_agree_length(s, t, n, e.end);
        lemma_byte_nested(s, e.end, RIGHT_BRACKET);
        lemma_agree_less(s, t, n, byte(s, e.end, RIGHT_BRACKET).seen);
        lemma_byte_local(s, t, e.end, RIGHT_BRACKET);
    }
    crate::nesting::forest::lemma_join_nested(s, p, e, byte(s, e.end, RIGHT_BRACKET));
    let f = join(e, byte(s, e.end, RIGHT_BRACKET));
}

/// `spaced_type_params` does the same on two inputs that agree in what it looked at.
pub proof fn lemma_spaced_type_params_local(s: Seq<u8>, t: Seq<u8>, p: int)
    requires
        0 <= p <= s.len(),
        agree(s, t, declarations::spaced_type_params(s, p).seen),
    ensures
        declarations::spaced_type_params(t, p) == declarations::spaced_type_params(s, p),
{
    reveal(declarations::spaced_type_params);
    let n = declarations::spaced_type_params(s, p).seen;
    lemma_trivia_nested(s, p);
    lemma_agree_less(s, t, n, trivia(s, p).seen);
    lemma_trivia_local(s, t, p);
    let a = trivia(s, p);
    if a.ok {
        lemma_agree_length(s, t, n, a.end);
        crate::nesting::declarations::lemma_type_params_nested(s, a.end);
        lemma_agree_less(s, t, n, declarations::type_params(s, a.end).seen);
        crate::locality::declarations::lemma_type_params_local(s, t, a.end);
    }
    crate::nesting::forest::lemma_join_nested(s, p, a, declarations::type_params(s, a.end));
    let b = join(a, declarations::type_params(s, a.end));
}

/// `super_class` does the same on two inputs that agree in what it looked at.
pub proof fn lemma_super_class_local(s: Seq<u8>, t: Seq<u8>, p: int)
    requires
        0 <= p <= s.len(),
        agree(s, t, declarations::super_class(s, p).seen),
    ensures
        declarations::super_class(t, p) == declarations::super_class(s, p),
{
    reveal(declarations::super_class);
    let n = declarations::super_class(s, p).seen;
    lemma_byte_nested(s, p, LESS);
    lemma_agree_less(s, t, n, byte(s, p, LESS).seen);
    lemma_byte_local(s, t, p, LESS);
    let a = byte(s, p, LESS);
    if a.ok {
        lemma_agree_length(s, t, n, a.end);
        lemma_trivia_nested(s, a.end);
        lemma_agree_less(s, t, n, trivia(s, a.end).seen);
        lemma_trivia_local(s, t, a.end);
    }
    crate::nesting::forest::lemma_join_nested(s, p, a, trivia(s, a.end));
    let b = join(a, trivia(s, a.end));
    if b.ok {
        lemma_agree_length(s, t, n, b.end);
        crate::nesting::types::lemma_type_class_instance_name_nested(s, b.end);
        lemma_agree_less(s, t, n, types::type_class_instance_name(s, b.end).seen);
        crate::locality::types::lemma_type_class_instance_name_local(s, t, b.end);
    }
    crate::nesting::forest::lemma_join_nested(s, p, b, types::type_class_instance_name(s, b.end));
    let c = join(b, types::type_class_instance_name(s, b.end));
}

/// `spaced_super_class` does the same on two inputs that agree in what it looked at.
pub proof fn lemma_spaced_super_class_local(s: Seq<u8>, t: Seq<u8>, p: int)
    requires
        0 <= p <= s.len(),
        agree(s, t, declarations::spaced_super_class(s, p).seen),
    ensures
        declarations::spaced_super_class(t, p) == declarations::spaced_super_class(s, p),
{
    reveal(declarations::spaced_super_class);
    let n = declarations::spaced_super_class(s, p).seen;
    lemma_trivia_nested(s, p);
    lemma_agree_less(s, t, n, trivia(s, p).seen);
    lemma_trivia_local(s, t, p);
    let a = trivia(s, p);
    if a.ok {
        lemma_agree_length(s, t, n, a.end);
        crate::nesting::declarations::lemma_super_class_nested(s, a.end);
        lemma_agree_less(s, t, n, declarations::super_class(s, a.end).seen);
        crate::locality::declarations::lemma_super_class_local(s, t, a.end);
    }
    crate::nesting::forest::lemma_join_nested(s, p, a, declarations::super_class(s, a.end));
    let b = join(a, declarations::super_class(s, a.end));
}

/// `self_types` does the same on two inputs that agree in what it looked at.
pub proof fn lemma_self_types_local(s: Seq<u8>, t: Seq<u8>, p: int)
    requires
        0 <= p <= s.len(),
        agree(s, t, declarations::self_types(s, p).seen),
    ensures
        declarations::self_types(t, p) == declarations::self_types(s, p),
{
    reveal(declarations::self_types);
    let n = declarations::self_types(s, p).seen;
    lemma_byte_nested(s, p, COLON);
    lemma_agree_less(s, t, n, byte(s, p, COLON).seen);
    lemma_byte_local(s, t, p, COLON);
    let a = byte(s, p, COLON);
    if a.ok {
        lemma_agree_length(s, t, n, a.end);
        lemma_trivia_nested(s, a.end);
        lemma_agree_less(s, t, n, trivia(s, a.end).seen);
        lemma_trivia_local(s, t, a.end);
    }
    crate::nesting::forest::lemma_join_nested(s, p, a, trivia(s, a.end));
    let b = join(a, trivia(s, a.end));
    if b.ok {
        lemma_agree_length(s, t, n, b.end);
        crate::nesting::types::lemma_type_list_nested(s, b.end);
        lemma_agree_less(s, t, n, types::type_list(s, b.end).seen);
        crate::locality::types::lemma_type_list_local(s, t, b.end);
    }
    crate::nesting::forest::lemma_join_nested(s, p, b, types::type_list(s, b.end));
    let c = join(b, types::type_list(s, b.end));
}

/// `spaced_self_types` does the same on two inputs that agree in what it looked at.
pub proof fn lemma_spaced_self_types_local(s: Seq<u8>, t: Seq<u8>, p: int)
    requires
        0 <= p <= s.len(),
        agree(s, t, declarations::spaced_self_types(s, p).seen),
    ensures
        declarations::spaced_self_types(t, p) == declarations::spaced_self_types(s, p),
{
    reveal(declarations::spaced_self_types);
    let n = declarations::spaced_self_types(s, p).seen;
    lemma_trivia_nested(s, p);
    lemma_agree_less(s, t, n, trivia(s, p).seen);
    lemma_trivia_local(s, t, p);
    let a = trivia(s, p);
    if a.ok {
        lemma_agree_length(s, t, n, a.end);
        crate::nesting::declarations::lemma_self_types_nested(s, a.end);
        lemma_agree_less(s, t, n, declarations::self_types(s, a.end).seen);
        crate::locality::declarations::lemma_self_types_local(s, t, a.end);
    }
    crate::nesting::forest::lemma_join_nested(s, p, a, declarations::self_types(s, a.end));
    let b = join(a, declarations::self_types(s, a.end));
}

/// `spaced_member` does the same on two inputs that agree in what it looked at.
pub proof fn lemma_spaced_member_local(s: Seq<u8>, t: Seq<u8>, p: int)
    requires
        0 <= p <= s.len(),
        agree(s, t, declarations::spaced_member(s, p).seen),
    ensures
        declarations::spaced_member(t, p) == declarations::spaced_member(s, p),
{
    reveal(declarations::spaced_member);
    let n = declarations::spaced_member(s, p).seen;
    lemma_trivia_nested(s, p);
    lemma_agree_less(s, t, n, trivia(s, p).seen);
    lemma_trivia_local(s, t, p);
    let a = trivia(s, p);
    if a.ok {
        lemma_agree_length(s, t, n, a.end);
        crate::nesting::members::lemma_member_nested(s, a.end);
        lemma_agree_less(s, t, n, members::member(s, a.end).seen);
        crate::locality::members::lemma_member_local(s, t, a.end);
    }
    crate::nesting::forest::lemma_join_nested(s, p, a, members::member(s, a.end));
    let b = join(a, members::member(s, a.end));
}

/// `members` does the same on two inputs that agree in what it looked at.
pub proof fn lemma_members_local(s: Seq<u8>, t: Seq<u8>, p: int)
    requires
        0 <= p <= s.len(),
        agree(s, t, declarations::members(s, p).seen),
    ensures
        declarations::members(t, p) == declarations::members(s, p),
    decreases s.len() - p,
{
    reveal_with_fuel(declarations::members, 1);
    let n = declarations::members(s, p).seen;
    let item = declarations::spaced_member(s, p);
    crate::nesting::declarations::lemma_spaced_member_nested(s, p);
    lemma_agree_less(s, t, n, declarations::spaced_member(s, p).seen);
    crate::locality::declarations::lemma_spaced_member_local(s, t, p);
    if item.ok && p < item.end <= s.len() {
        lemma_agree_length(s, t, n, item.end);
        lemma_agree_less(s, t, n, declarations::members(s, item.end).seen);
        lemma_members_local(s, t, item.end);
    }
}

/// `class_decl` does the same on two inputs that agree in what it looked at.
pub proof fn lemma_class_decl_local(s: Seq<u8>, t: Seq<u8>, p: int)
    requires
        0 <= p <= s.len(),
        agree(s, t, declarations::class_decl(s, p).seen),
    ensures
        declarations::class_decl(t, p) == declarations::class_decl(s, p),
{
    reveal(declarations::class_decl);
    let n = declarations::class_decl(s, p).seen;
    lemma_keyword_nested(s, p, "class".spec_bytes());
    lemma_agree_less(s, t, n, keyword(s, p, "class".spec_bytes()).seen);
    lemma_keyword_local(s, t, p, "class".spec_bytes());
    let a = keyword(s, p, "class".spec_bytes());
    if a.ok {
        lemma_agree_length(s, t, n, a.end);
        lemma_trivia_nested(s, a.end);
        lemma_agree_less(s, t, n, trivia(s, a.end).seen);
        lemma_trivia_local(s, t, a.end);
    }
    crate::nesting::forest::lemma_join_nested(s, p, a, trivia(s, a.end));
    let b = join(a, trivia(s, a.end));
    if b.ok {
        lemma_agree_length(s, t, n, b.end);
        crate::nesting::names::lemma_class_name_nested(s, b.end);
        lemma_agree_less(s, t, n, names::class_name(s, b.end).seen);
        crate::locality::names::lemma_class_name_local(s, t, b.end);
    }
    crate::nesting::forest::lemma_join_nested(s, p, b, names::class_name(s, b.end));
    let c = join(b, names::class_name(s, b.end));
    if c.ok {
        lemma_agree_length(s, t, n, c.end);
        crate::nesting::declarations::lemma_spaced_type_params_nested(s, c.end);
        lemma_agree_less(s, t, n, declarations::spaced_type_params(s, c.end).seen);
        crate::locality::declarations::lemma_spaced_type_params_local(s, t, c.end);
    }
    crate::nesting::forest::lemma_join_nested(
        s,
        p,
        c,
        opt(c.end, declarations::spaced_type_params(s, c.end)),
    );
    let d = join(c, opt(c.end, declarations::spaced_type_params(s, c.end)));
    if d.ok {
        lemma_agree_length(s, t, n, d.end);
        crate::nesting::declarations::lemma_spaced_super_class_nested(s, d.end);
        lemma_agree_less(s, t, n, declarations::spaced_super_class(s, d.end).seen);
        crate::locality::declarations::lemma_spaced_super_class_local(s, t, d.end);
    }
    crate::nesting::forest::lemma_join_nested(
        s,
        p,
        d,
        opt(d.end, declarations::spaced_super_class(s, d.end)),
    );
    let e = join(d, opt(d.end, declarations::spaced_super_class(s, d.end)));
    if e.ok {
        lemma_agree_length(s, t, n, e.end);
        crate::nesting::declarations::lemma_members_nested(s, e.end);
        lemma_agree_less(s, t, n, declarations::members(s, e.end).seen);
        crate::locality::declarations::lemma_members_local(s, t, e.end);
    }
    crate::nesting::forest::lemma_join_nested(s, p, e, declarations::members(s, e.end));
    let f = join(e, declarations::members(s, e.end));
    if f.ok {
        lemma_agree_length(s, t, n, f.end);
        lemma_trivia_nested(s, f.end);
        lemma_agree_less(s, t, n, trivia(s, f.end).seen);
        lemma_trivia_local(s, t, f.end);
    }
    crate::nesting::forest::lemma_join_nested(s, p, f, trivia(s, f.end));
    let g = join(f, trivia(s, f.end));
    if g.ok {
        lemma_agree_length(s, t, n, g.end);
        lemma_keyword_nested(s, g.end, "end".spec_bytes());
        lemma_agree_less(s, t, n, keyword(s, g.end, "end".spec_bytes()).seen);
        lemma_keyword_local(s, t, g.end, "end".spec_bytes());
    }
    crate::nesting::forest::lemma_join_nested(s, p, g, keyword(s, g.end, "end".spec_bytes()));
    let h = join(g, keyword(s, g.end, "end".spec_bytes()));
}

/// `module_decl` does the same on two inputs that agree in what it looked at.
pub proof fn lemma_module_decl_local(s: Seq<u8>, t: Seq<u8>, p: int)
    requires
        0 <= p <= s.len(),
        agree(s, t, declarations::module_decl(s, p).seen),
    ensures
        declarations::module_decl(t, p) == declarations::module_decl(s, p),
{
    reveal(declarations::module_decl);
    let n = declarations::module_decl(s, p).seen;
    lemma_keyword_nested(s, p, "module".spec_bytes());
    lemma_agree_less(s, t, n, keyword(s, p, "module".spec_bytes()).seen);
    lemma_keyword_local(s, t, p, "module".spec_bytes());
    let a = keyword(s, p, "module".spec_bytes());
    if a.ok {
        lemma_agree_length(s, t, n, a.end);
        lemma_trivia_nested(s, a.end);
        lemma_agree_less(s, t, n, trivia(s, a.end).seen);
        lemma_trivia_local(s, t, a.end);
    }
    crate::nesting::forest::lemma_join_nested(s, p, a, trivia(s, a.end));
    let b = join(a, trivia(s, a.end));
    if b.ok {
        lemma_agree_length(s, t, n, b.end);
        crate::nesting::names::lemma_class_name_nested(s, b.end);
        lemma_agree_less(s, t, n, names::class_name(s, b.end).seen);
        crate::locality::names::lemma_class_name_local(s, t, b.end);
    }
    crate::nesting::forest::lemma_join_nested(s, p, b, names::class_name(s, b.end));
    let c = join(b, names::class_name(s, b.end));
    if c.ok {
        lemma_agree_length(s, t, n, c.end);
        crate::nesting::declarations::lemma_spaced_type_params_nested(s, c.end);
        lemma_agree_less(s, t, n, declarations::spaced_type_params(s, c.end).seen);
        crate::locality::declarations::lemma_spaced_type_params_local(s, t, c.end);
    }
    crate::nesting::forest::lemma_join_nested(
        s,
        p,
        c,
        opt(c.end, declarations::spaced_type_params(s, c.end)),
    );
    let d = join(c, opt(c.end, declarations::spaced_type_params(s, c.end)));
    if d.ok {
        lemma_agree_length(s, t, n, d.end);
        crate::nesting::declarations::lemma_spaced_self_types_nested(s, d.end);
        lemma_agree_less(s, t, n, declarations::spaced_self_types(s, d.end).seen);
        crate::locality::declarations::lemma_spaced_self_types_local(s, t, d.end);
    }
    crate::nesting::forest::lemma_join_nested(
        s,
        p,
        d,
        opt(d.end, declarations::spaced_self_types(s, d.end)),
    );
    let e = join(d, opt(d.end, declarations::spaced_self_types(s, d.end)));
    if e.ok {
        lemma_agree_length(s, t, n, e.end);
        crate::nesting::declarations::lemma_members_nested(s, e.end);
        lemma_agree_less(s, t, n, declarations::members(s, e.end).seen);
        crate::locality::declarations::lemma_members_local(s, t, e.end);
    }
    crate::nesting::forest::lemma_join_nested(s, p, e, declarations::members(s, e.end));
    let f = join(e, declarations::members(s, e.end));
    if f.ok {
        lemma_agree_length(s, t, n, f.end);
        lemma_trivia_nested(s, f.end);
        lemma_agree_less(s, t, n, trivia(s, f.end).seen);
        lemma_trivia_local(s, t, f.end);
    }
    crate::nesting::forest::lemma_join_nested(s, p, f, trivia(s, f.end));
    let g = join(f, trivia(s, f.end));
    if g.ok {
        lemma_agree_length(s, t, n, g.end);
        lemma_keyword_nested(s, g.end, "end".spec_bytes());
        lemma_agree_less(s, t, n, keyword(s, g.end, "end".spec_bytes()).seen);
        lemma_keyword_local(s, t, g.end, "end".spec_bytes());
    }
    crate::nesting::forest::lemma_join_nested(s, p, g, keyword(s, g.end, "end".spec_bytes()));
    let h = join(g, keyword(s, g.end, "end".spec_bytes()));
}

/// `const_decl` does the same on two inputs that agree in what it looked at.
pub proof fn lemma_const_decl_local(s: Seq<u8>, t: Seq<u8>, p: int)
    requires
        0 <= p <= s.len(),
        agree(s, t, declarations::const_decl(s, p).seen),
    ensures
        declarations::const_decl(t, p) == declarations::const_decl(s, p),
{
    reveal(declarations::const_decl);
    let n = declarations::const_decl(s, p).seen;
    crate::nesting::names::lemma_const_name_nested(s, p);
    lemma_agree_less(s, t, n, names::const_name(s, p).seen);
    crate::locality::names::lemma_const_name_local(s, t, p);
    let a = names::const_name(s, p);
    if a.ok {
        lemma_agree_length(s, t, n, a.end);
        lemma_trivia_nested(s, a.end);
        lemma_agree_less(s, t, n, trivia(s, a.end).seen);
        lemma_trivia_local(s, t, a.end);
    }
    crate::nesting::forest::lemma_join_nested(s, p, a, trivia(s, a.end));
    let b = join(a, trivia(s, a.end));
    if b.ok {
        lemma_agree_length(s, t, n, b.end);
        lemma_byte_nested(s, b.end, COLON);
        lemma_agree_less(s, t, n, byte(s, b.end, COLON).seen);
        lemma_byte_local(s, t, b.end, COLON);
    }
    crate::nesting::forest::lemma_join_nested(s, p, b, byte(s, b.end, COLON));
    let c = join(b, byte(s, b.end, COLON));
    if c.ok {
        lemma_agree_length(s, t, n, c.end);
        lemma_trivia_nested(s, c.end);
        lemma_agree_less(s, t, n, trivia(s, c.end).seen);
        lemma_trivia_local(s, t, c.end);
    }
    crate::nesting::forest::lemma_join_nested(s, p, c, trivia(s, c.end));
    let d = join(c, trivia(s, c.end));
    if d.ok {
        lemma_agree_length(s, t, n, d.end);
        crate::nesting::types::lemma_type_expr_nested(s, d.end);
        lemma_agree_less(s, t, n, types::type_expr(s, d.end).seen);
        crate::locality::types::lemma_type_expr_local(s, t, d.end);
    }
    crate::nesting::forest::lemma_join_nested(s, p, d, types::type_expr(s, d.end));
    let e = join(d, types::type_expr(s, d.end));
}

} // verus!
