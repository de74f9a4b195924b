use vstd::prelude::*;
use vstd::string::StringSliceAdditionalSpecFns;
use crate::grammar::lexical::{
    byte, keyword, trivia, COMMA, LEFT_BRACKET, LEFT_PAREN, RIGHT_BRACKET, RIGHT_PAREN,
};
use crate::grammar::step::{either, join, opt};
use crate::grammar::{literals, names, types};
use crate::locality::agreeing::{
    agree, lemma_agree_length, lemma_agree_less, lemma_byte_local, lemma_keyword_local,
    lemma_trivia_local,
};
use crate::nesting::forest::{lemma_byte_nested, lemma_keyword_nested, lemma_trivia_nested};

verus! {

/// `singleton_front` does the same on two inputs that agree in what it looked at.
pub proof fn lemma_singleton_front_local(s: Seq<u8>, t: Seq<u8>, p: int)
    requires
        0 <= p <= s.len(),
        agree(s, t, types::singleton_front(s, p).seen),
    ensures
        types::singleton_front(t, p) == types::singleton_front(s, p),
{
    let n = types::singleton_front(s, p).seen;
    lemma_keyword_nested(s, p, "singleton".spec_bytes());
    lemma_agree_less(s, t, n, keyword(s, p, "singleton".spec_bytes()).seen);
    lemma_keyword_local(s, t, p, "singleton".spec_bytes());
    let a = keyword(s, p, "singleton".spec_bytes());
    if a.ok {
        lemma_agree_length(s, t, n, a.end);
        lemma_trivia_nested(s, a.end);
        lemma_agree_less(s, t, n, trivia(s, a.end).seen);
        lemma_trivia_local(s, t, a.end);
    }
    crate::nesting::forest::lemma_join_nested(s, p, a, trivia(s, a.end));
    let b = join(a, trivia(s, a.end));
    if b.ok {
        lemma_agree_length(s, t, n, b.end);
        lemma_byte_nested(s, b.end, LEFT_PAREN);
        lemma_agree_less(s, t, n, byte(s, b.end, LEFT_PAREN).seen);
        lemma_byte_local(s, t, b.end, LEFT_PAREN);
    }
    crate::nesting::forest::lemma_join_nested(s, p, b, byte(s, b.end, LEFT_PAREN));
    let c = join(b, byte(s, b.end, LEFT_PAREN));
    if c.ok {
        lemma_agree_length(s, t, n, c.end);
        lemma_trivia_nested(s, c.end);
        lemma_agree_less(s, t, n, trivia(s, c.end).seen);
        lemma_trivia_local(s, t, c.end);
    }
    crate::nesting::forest::lemma_join_nested(s, p, c, trivia(s, c.end));
    let d = join(c, trivia(s, c.end));
    if d.ok {
        lemma_agree_length(s, t, n, d.end);
        crate::nesting::names::lemma_class_name_nested(s, d.end);
        lemma_agree_less(s, t, n, names::class_name(s, d.end).seen);
        crate::locality::names::lemma_class_name_local(s, t, d.end);
    }
    crate::nesting::forest::lemma_join_nested(s, p, d, names::class_name(s, d.end));
    let e = join(d, names::class_name(s, d.end));
    if e.ok {
        lemma_agree_length(s, t, n, e.end);
        lemma_trivia_nested(s, e.end);
        lemma_agree_less(s, t, n, trivia(s, e.end).seen);
        lemma_trivia_local(s, t, e.end);
    }
    crate::nesting::forest::lemma_join_nested(s, p, e, trivia(s, e.end));
    let f = join(e, trivia(s, e.end));
}

/// `type_singleton_class_name` does the same on two inputs that agree in what it looked at.
pub proof fn lemma_type_singleton_class_name_local(s: Seq<u8>, t: Seq<u8>, p: int)
    requires
        0 <= p <= s.len(),
        agree(s, t, types::type_singleton_class_name(s, p).seen),
    ensures
        types::type_singleton_class_name(t, p) == types::type_singleton_class_name(s, p),
{
    reveal(types::type_singleton_class_name);
    let n = types::type_singleton_class_name(s, p).seen;
    crate::nesting::types::lemma_singleton_front_nested(s, p);
    lemma_agree_less(s, t, n, types::singleton_front(s, p).seen);
    crate::locality::types::lemma_singleton_front_local(s, t, p);
    let a = types::singleton_front(s, p);
    if a.ok {
        lemma_agree_length(s, t, n, a.end);
        lemma_byte_nested(s, a.end, RIGHT_PAREN);
        lemma_agree_less(s, t, n, byte(s, a.end, RIGHT_PAREN).seen);
        lemma_byte_local(s, t, a.end, RIGHT_PAREN);
    }
    crate::nesting::forest::lemma_join_nested(s, p, a, byte(s, a.end, RIGHT_PAREN));
    let b = join(a, byte(s, a.end, RIGHT_PAREN));
}

/// `type_expr` does the same on two inputs that agree in what it looked at.
pub proof fn lemma_type_expr_local(s: Seq<u8>, t: Seq<u8>, p: int)
    requires
        0 <= p <= s.len(),
        agree(s, t, types::type_expr(s, p).seen),
    ensures
        types::type_expr(t, p) == types::type_expr(s, p),
    decreases s.len() - p, 5int,
{
    reveal_with_fuel(types::type_expr, 1);
    reveal_with_fuel(types::type_interface_name, 1);
    reveal_with_fuel(types::type_class_instance_name, 1);
    reveal_with_fuel(types::type_alias_name, 1);
    let n = types::type_expr(s, p).seen;
    crate::nesting::types::lemma_type_singleton_class_name_nested(s, p);
    lemma_agree_less(s, t, n, types::type_singleton_class_name(s, p).seen);
    crate::locality::types::lemma_type_singleton_class_name_local(s, t, p);
    if !types::type_singleton_class_name(s, p).ok {
        crate::nesting::types::lemma_type_interface_name_nested(s, p);
        lemma_agree_less(s, t, n, types::type_interface_name(s, p).seen);
        crate::locality::types::lemma_type_interface_name_local(s, t, p);
        if !types::type_interface_name(s, p).ok {
            crate::nesting::types::lemma_type_class_instance_name_nested(s, p);
            lemma_agree_less(s, t, n, types::type_class_instance_name(s, p).seen);
            crate::locality::types::lemma_type_class_instance_name_local(s, t, p);
            if !types::type_class_instance_name(s, p).ok {
                crate::nesting::types::lemma_type_alias_name_nested(s, p);
                lemma_agree_less(s, t, n, types::type_alias_name(s, p).seen);
                crate::locality::types::lemma_type_alias_name_local(s, t, p);
                if !types::type_alias_name(s, p).ok {
                    crate::nesting::literals::lemma_literal_value_nested(s, p);
                    lemma_agree_less(s, t, n, literals::literal_value(s, p).seen);
                    crate::locality::literals::lemma_literal_value_local(s, t, p);
                }
            }
        }
    }
    let a = either(
        types::type_singleton_class_name(s, p),
        either(
            types::type_interface_name(s, p),
            either(
                types::type_class_instance_name(s, p),
                either(types::type_alias_name(s, p), literals::literal_value(s, p)),
            ),
        ),
    );
}

/// `spaced_type_arguments` does the same on two inputs that agree in what it looked at.
pub proof fn lemma_spaced_type_arguments_local(s: Seq<u8>, t: Seq<u8>, p: int)
    requires
        0 <= p <= s.len(),
        agree(s, t, types::spaced_type_arguments(s, p).seen),
    ensures
        types::spaced_type_arguments(t, p) == types::spaced_type_arguments(s, p),
    decreases s.len() - p, 3int,
{
    reveal_with_fuel(types::spaced_type_arguments, 1);
    reveal_with_fuel(types::type_arguments, 1);
    let n = types::spaced_type_arguments(s, p).seen;
    lemma_trivia_nested(s, p);
    lemma_agree_less(s, t, n, trivia(s, p).seen);
    lemma_trivia_local(s, t, p);
    let a = trivia(s, p);
    if a.ok {
        lemma_agree_length(s, t, n, a.end);
        crate::nesting::types::lemma_type_arguments_nested(s, a.end);
        lemma_agree_less(s, t, n, types::type_arguments(s, a.end).seen);
        crate::locality::types::lemma_type_arguments_local(s, t, a.end);
    }
    crate::nesting::forest::lemma_join_nested(s, p, a, types::type_arguments(s, a.end));
    let b = join(a, types::type_arguments(s, a.end));
}

/// `type_class_instance_name` does the same on two inputs that agree in what it looked at.
pub proof fn lemma_type_class_instance_name_local(s: Seq<u8>, t: Seq<u8>, p: int)
    requires
        0 <= p <= s.len(),
        agree(s, t, types::type_class_instance_name(s, p).seen),
    ensures
        types::type_class_instance_name(t, p) == types::type_class_instance_name(s, p),
    decreases s.len() - p, 4int,
{
    reveal_with_fuel(types::type_class_instance_name, 1);
    reveal_with_fuel(types::spaced_type_arguments, 1);
    let n = types::type_class_instance_name(s, p).seen;
    crate::nesting::names::lemma_class_name_nested(s, p);
    lemma_agree_less(s, t, n, names::class_name(s, p).seen);
    crate::locality::names::lemma_class_name_local(s, t, p);
    let a = names::class_name(s, p);
    if a.ok {
        lemma_agree_length(s, t, n, a.end);
        crate::nesting::types::lemma_spaced_type_arguments_nested(s, a.end);
        lemma_agree_less(s, t, n, types::spaced_type_arguments(s, a.end).seen);
        crate::locality::types::lemma_spaced_type_arguments_local(s, t, a.end);
    }
    crate::nesting::forest::lemma_join_nested(
        s,
        p,
        a,
        opt(a.end, types::spaced_type_arguments(s, a.end)),
    );
    let b = join(a, opt(a.end, types::spaced_type_arguments(s, a.end)));
}

/// `type_interface_name` does the same on two inputs that agree in what it looked at.
pub proof fn lemma_type_interface_name_local(s: Seq<u8>, t: Seq<u8>, p: int)
    requires
        0 <= p <= s.len(),
        agree(s, t, types::type_interface_name(s, p).seen),
    ensures
        types::type_interface_name(t, p) == types::type_interface_name(s, p),
    decreases s.len() - p, 4int,
{
    reveal_with_fuel(types::type_interface_name, 1);
    reveal_with_fuel(types::spaced_type_arguments, 1);
    let n = types::type_interface_name(s, p).seen;
    crate::nesting::names::lemma_interface_name_nested(s, p);
    lemma_agree_less(s, t, n, names::interface_name(s, p).seen);
    crate::locality::names::lemma_interface_name_local(s, t, p);
    let a = names::interface_name(s, p);
    if a.ok {
        lemma_agree_length(s, t, n, a.end);
        crate::nesting::types::lemma_spaced_type_arguments_nested(s, a.end);
        lemma_agree_less(s, t, n, types::spaced_type_arguments(s, a.end).seen);
        crate::locality::types::lemma_spaced_type_arguments_local(s, t, a.end);
    }
    crate::nesting::forest::lemma_join_nested(
        s,
        p,
        a,
        opt(a.end, types::spaced_type_arguments(s, a.end)),
    );
    let b = join(a, opt(a.end, types::spaced_type_arguments(s, a.end)));
}

/// `type_alias_name` does the same on two inputs that agree in what it looked at.
pub proof fn lemma_type_alias_name_local(s: Seq<u8>, t: Seq<u8>, p: int)
    requires
        0 <= p <= s.len(),
        agree(s, t, types::type_alias_name(s, p).seen),
    ensures
        types::type_alias_name(t, p) == types::type_alias_name(s, p),
    decreases s.len() - p, 4int,
{
    reveal_with_fuel(types::type_alias_name, 1);
    reveal_with_fuel(types::spaced_type_arguments, 1);
    let n = types::type_alias_name(s, p).seen;
    crate::nesting::names::lemma_alias_name_nested(s, p);
    lemma_agree_less(s, t, n, names::alias_name(s, p).seen);
    crate::locality::names::lemma_alias_name_local(s, t, p);
    let a = names::alias_name(s, p);
    if a.ok {
        lemma_agree_length(s, t, n, a.end);
        crate::nesting::types::lemma_spaced_type_arguments_nested(s, a.end);
        lemma_agree_less(s, t, n, types::spaced_type_arguments(s, a.end).seen);
        crate::locality::types::lemma_spaced_type_arguments_local(s, t, a.end);
    }
    crate::nesting::forest::lemma_join_nested(
        s,
        p,
        a,
        opt(a.end, types::spaced_type_arguments(s, a.end)),
    );
    let b = join(a, opt(a.end, types::spaced_type_arguments(s, a.end)));
}

/// `type_arguments` does the same on two inputs that agree in what it looked at.
pub proof fn lemma_type_arguments_local(s: Seq<u8>, t: Seq<u8>, p: int)
    requires
        0 <= p <= s.len(),
        agree(s, t, types::type_arguments(s, p).seen),
    ensures
        types::type_arguments(t, p) == types::type_arguments(s, p),
    decreases s.len() - p, 2int,
{
    reveal_with_fuel(types::type_arguments, 1);
    reveal_with_fuel(types::type_list, 1);
    let n = types::type_arguments(s, p).seen;
    lemma_byte_nested(s, p, LEFT_BRACKET);
    lemma_agree_less(s, t, n, byte(s, p, LEFT_BRACKET).seen);
    lemma_byte_local(s, t, p, LEFT_BRACKET);
    let a = byte(s, p, LEFT_BRACKET);
    if a.ok {
        lemma_agree_length(s, t, n, a.end);
        lemma_trivia_nested(s, a.end);
        lemma_agree_less(s, t, n, trivia(s, a.end).seen);
        lemma_trivia_local(s, t, a.end);
    }
    crate::nesting::forest::lemma_join_nested(s, p, a, trivia(s, a.end));
    let b = join(a, trivia(s, a.end));
    if b.ok {
        lemma_agree_length(s, t, n, b.end);
        crate::nesting::types::lemma_type_list_nested(s, b.end);
        lemma_agree_less(s, t, n, types::type_list(s, b.end).seen);
        crate::locality::types::lemma_type_list_local(s, t, b.end);
    }
    crate::nesting::forest::lemma_join_nested(s, p, b, types::type_list(s, b.end));
    let c = join(b, types::type_list(s, b.end));
    if c.ok {
        lemma_agree_length(s, t, n, c.end);
        lemma_trivia_nested(s, c.end);
        lemma_agree_less(s, t, n, trivia(s, c.end).seen);
        lemma_trivia_local(s, t, c.end);
    }
    crate::nesting::forest::lemma_join_nested(s, p, c, trivia(s, c.end));
    let d = join(c, trivia(s, c.end));
    if d.ok {
        lemma_agree_length(s, t, n, d.end);
        lemma_byte_nested(s, d.end, RIGHT_BRACKET);
        lemma_agree_less(s, t, n, byte(s, d.end, RIGHT_BRACKET).seen);
        lemma_byte_local(s, t, d.end, RIGHT_BRACKET);
    }
    crate::nesting::forest::lemma_join_nested(s, p, d, byte(s, d.end, RIGHT_BRACKET));
    let e = join(d, byte(s, d.end, RIGHT_BRACKET));
}

/// `type_list` does the same on two inputs that agree in what it looked at.
pub proof fn lemma_type_list_local(s: Seq<u8>, t: Seq<u8>, p: int)
    requires
        0 <= p <= s.len(),
        agree(s, t, types::type_list(s, p).seen),
    ensures
        types::type_list(t, p) == types::type_list(s, p),
    decreases s.len() - p, 6int,
{
    reveal_with_fuel(types::type_list, 1);
    reveal_with_fuel(types::type_expr, 1);
    reveal_with_fuel(types::more_types, 1);
    let n = types::type_list(s, p).seen;
    crate::nesting::types::lemma_type_expr_nested(s, p);
    lemma_agree_less(s, t, n, types::type_expr(s, p).seen);
    crate::locality::types::lemma_type_expr_local(s, t, p);
    let a = types::type_expr(s, p);
    if a.ok {
        lemma_agree_length(s, t, n, a.end);
        crate::nesting::types::lemma_more_types_nested(s, a.end);
        lemma_agree_less(s, t, n, types::more_types(s, a.end).seen);
        crate::locality::types::lemma_more_types_local(s, t, a.end);
    }
    crate::nesting::forest::lemma_join_nested(s, p, a, types::more_types(s, a.end));
    let b = join(a, types::more_types(s, a.end));
}

/// `comma_type` does the same on two inputs that agree in what it looked at.
pub proof fn lemma_comma_type_local(s: Seq<u8>, t: Seq<u8>, p: int)
    requires
        0 <= p <= s.len(),
        agree(s, t, types::comma_type(s, p).seen),
    ensures
        types::comma_type(t, p) == types::comma_type(s, p),
    decreases s.len() - p, 0int,
{
    reveal_with_fuel(types::comma_type, 1);
    reveal_with_fuel(types::type_expr, 1);
    let n = types::comma_type(s, p).seen;
    lemma_trivia_nested(s, p);
    lemma_agree_less(s, t, n, trivia(s, p).seen);
    lemma_trivia_local(s, t, p);
    let a = trivia(s, p);
    if a.ok {
        lemma_agree_length(s, t, n, a.end);
        lemma_byte_nested(s, a.end, COMMA);
        lemma_agree_less(s, t, n, byte(s, a.end, COMMA).seen);
        lemma_byte_local(s, t, a.end, COMMA);
    }
    crate::nesting::forest::lemma_join_nested(s, p, a, byte(s, a.end, COMMA));
    let b = join(a, byte(s, a.end, COMMA));
    if b.ok {
        lemma_agree_length(s, t, n, b.end);
        lemma_trivia_nested(s, b.end);
        lemma_agree_less(s, t, n, trivia(s, b.end).seen);
        lemma_trivia_local(s, t, b.end);
    }
    crate::nesting::forest::lemma_join_nested(s, p, b, trivia(s, b.end));
    let c = join(b, trivia(s, b.end));
    if c.ok {
        lemma_agree_length(s, t, n, c.end);
        crate::nesting::types::lemma_type_expr_nested(s, c.end);
        lemma_agree_less(s, t, n, types::type_expr(s, c.end).seen);
        crate::locality::types::lemma_type_expr_local(s, t, c.end);
    }
    crate::nesting::forest::lemma_join_nested(s, p, c, types::type_expr(s, c.end));
    let d = join(c, types::type_expr(s, c.end));
}

/// `more_types` does the same on two inputs that agree in what it looked at.
pub proof fn lemma_more_types_local(s: Seq<u8>, t: Seq<u8>, p: int)
    requires
        0 <= p <= s.len(),
        agree(s, t, types::more_types(s, p).seen),
    ensures
        types::more_types(t, p) == types::more_types(s, p),
    decreases s.len() - p, 1int,
{
    reveal_with_fuel(types::more_types, 1);
    reveal_with_fuel(types::comma_type, 1);
    let n = types::more_types(s, p).seen;
    let item = types::comma_type(s, p);
    crate::nesting::types::lemma_comma_type_nested(s, p);
    lemma_agree_less(s, t, n, types::comma_type(s, p).seen);
    crate::locality::types::lemma_comma_type_local(s, t, p);
    if item.ok && p < item.end <= s.len() {
        lemma_agree_length(s, t, n, item.end);
        lemma_agree_less(s, t, n, types::more_types(s, item.end).seen);
        lemma_more_types_local(s, t, item.end);
    }
}

} // verus!
