use vstd::prelude::*;
use vstd::string::StringSliceAdditionalSpecFns;
use crate::grammar::lexical::{
    byte, keyword, trivia, LEFT_BRACKET, LEFT_PAREN, RIGHT_BRACKET, RIGHT_PAREN,
};
use crate::grammar::step::{either, join, opt};
use crate::grammar::{literals, names, types};
use crate::nesting::forest::{
    lemma_byte_nested, lemma_either_nested, lemma_join_nested, lemma_keyword_nested,
    lemma_opt_nested, lemma_trivia_nested,
};
use crate::progress::words::{lemma_keyword_progress, lemma_word_singleton};

verus! {

/// `singleton_front` matches nothing empty.
pub proof fn lemma_singleton_front_progress(s: Seq<u8>, p: int)
    requires
        0 <= p <= s.len(),
    ensures
        types::singleton_front(s, p).ok ==> p < types::singleton_front(s, p).end <= s.len(),
{
    crate::nesting::types::lemma_singleton_front_nested(s, p);
    lemma_keyword_nested(s, p, "singleton".spec_bytes());
    lemma_word_singleton();
    lemma_keyword_progress(s, p, "singleton".spec_bytes());
    let a = keyword(s, p, "singleton".spec_bytes());
    if a.ok {
        lemma_trivia_nested(s, a.end);
    }
    crate::nesting::forest::lemma_join_nested(s, p, a, trivia(s, a.end));
    let b = join(a, trivia(s, a.end));
    if b.ok {
        lemma_byte_nested(s, b.end, LEFT_PAREN);
    }
    crate::nesting::forest::lemma_join_nested(s, p, b, byte(s, b.end, LEFT_PAREN));
    let c = join(b, byte(s, b.end, LEFT_PAREN));
    if c.ok {
        lemma_trivia_nested(s, c.end);
    }
    crate::nesting::forest::lemma_join_nested(s, p, c, trivia(s, c.end));
    let d = join(c, trivia(s, c.end));
    if d.ok {
        crate::nesting::names::lemma_class_name_nested(s, d.end);
    }
    crate::nesting::forest::lemma_join_nested(s, p, d, names::class_name(s, d.end));
    let e = join(d, names::class_name(s, d.end));
    if e.ok {
        lemma_trivia_nested(s, e.end);
    }
    crate::nesting::forest::lemma_join_nested(s, p, e, trivia(s, e.end));
    let f = join(e, trivia(s, e.end));
}

/// `type_singleton_class_name` matches nothing empty.
pub proof fn lemma_type_singleton_class_name_progress(s: Seq<u8>, p: int)
    requires
        0 <= p <= s.len(),
    ensures
        types::type_singleton_class_name(s, p).ok ==> p < types::type_singleton_class_name(s, p).end <= s.len(),
{
    reveal(types::type_singleton_class_name);
    crate::nesting::types::lemma_type_singleton_class_name_nested(s, p);
    crate::nesting::types::lemma_singleton_front_nested(s, p);
    crate::progress::types::lemma_singleton_front_progress(s, p);
    let a = types::singleton_front(s, p);
    if a.ok {
        lemma_byte_nested(s, a.end, RIGHT_PAREN);
    }
    crate::nesting::forest::lemma_join_nested(s, p, a, byte(s, a.end, RIGHT_PAREN));
    let b = join(a, byte(s, a.end, RIGHT_PAREN));
}

/// `type_expr` matches nothing empty.
pub proof fn lemma_type_expr_progress(s: Seq<u8>, p: int)
    requires
        0 <= p <= s.len(),
    ensures
        types::type_expr(s, p).ok ==> p < types::type_expr(s, p).end <= s.len(),
{
    reveal_with_fuel(types::type_expr, 1);
    reveal_with_fuel(types::type_interface_name, 1);
    reveal_with_fuel(types::type_class_instance_name, 1);
    reveal_with_fuel(types::type_alias_name, 1);
    crate::nesting::types::lemma_type_expr_nested(s, p);
    crate::nesting::types::lemma_type_singleton_class_name_nested(s, p);
    crate::nesting::types::lemma_type_interface_name_nested(s, p);
    crate::nesting::types::lemma_type_class_instance_name_nested(s, p);
    crate::nesting::types::lemma_type_alias_name_nested(s, p);
    crate::nesting::literals::lemma_literal_value_nested(s, p);
    lemma_either_nested(s, p, types::type_alias_name(s, p), literals::literal_value(s, p));
    lemma_either_nested(
        s,
        p,
        types::type_class_instance_name(s, p),
        either(types::type_alias_name(s, p), literals::literal_value(s, p)),
    );
    lemma_either_nested(
        s,
        p,
        types::type_interface_name(s, p),
        either(
            types::type_class_instance_name(s, p),
            either(types::type_alias_name(s, p), literals::literal_value(s, p)),
        ),
    );
    lemma_either_nested(
        s,
        p,
        types::type_singleton_class_name(s, p),
        either(
            types::type_interface_name(s, p),
            either(
                types::type_class_instance_name(s, p),
                either(types::type_alias_name(s, p), literals::literal_value(s, p)),
            ),
        ),
    );
    crate::progress::types::lemma_type_singleton_class_name_progress(s, p);
    crate::progress::types::lemma_type_interface_name_progress(s, p);
    crate::progress::types::lemma_type_class_instance_name_progress(s, p);
    crate::progress::types::lemma_type_alias_name_progress(s, p);
    crate::progress::literals::lemma_literal_value_progress(s, p);
    let a = either(
        types::type_singleton_class_name(s, p),
        either(
            types::type_interface_name(s, p),
            either(
                types::type_class_instance_name(s, p),
                either(types::type_alias_name(s, p), literals::literal_value(s, p)),
            ),
        ),
    );
}

/// `type_class_instance_name` matches nothing empty.
pub proof fn lemma_type_class_instance_name_progress(s: Seq<u8>, p: int)
    requires
        0 <= p <= s.len(),
    ensures
        types::type_class_instance_name(s, p).ok ==> p < types::type_class_instance_name(s, p).end <= s.len(),
{
    reveal_with_fuel(types::type_class_instance_name, 1);
    reveal_with_fuel(types::spaced_type_arguments, 1);
    crate::nesting::types::lemma_type_class_instance_name_nested(s, p);
    crate::nesting::names::lemma_class_name_nested(s, p);
    crate::progress::names::lemma_class_name_progress(s, p);
    let a = names::class_name(s, p);
    if a.ok {
        crate::nesting::types::lemma_spaced_type_arguments_nested(s, a.end);
        lemma_opt_nested(s, a.end, types::spaced_type_arguments(s, a.end));
    }
    crate::nesting::forest::lemma_join_nested(
        s,
        p,
        a,
        opt(a.end, types::spaced_type_arguments(s, a.end)),
    );
    let b = join(a, opt(a.end, types::spaced_type_arguments(s, a.end)));
}

/// `type_interface_name` matches nothing empty.
pub proof fn lemma_type_interface_name_progress(s: Seq<u8>, p: int)
    requires
        0 <= p <= s.len(),
    ensures
        types::type_interface_name(s, p).ok ==> p < types::type_interface_name(s, p).end <= s.len(),
{
    reveal_with_fuel(types::type_interface_name, 1);
    reveal_with_fuel(types::spaced_type_arguments, 1);
    crate::nesting::types::lemma_type_interface_name_nested(s, p);
    crate::nesting::names::lemma_interface_name_nested(s, p);
    crate::progress::names::lemma_interface_name_progress(s, p);
    let a = names::interface_name(s, p);
    if a.ok {
        crate::nesting::types::lemma_spaced_type_arguments_nested(s, a.end);
        lemma_opt_nested(s, a.end, types::spaced_type_arguments(s, a.end));
    }
    crate::nesting::forest::lemma_join_nested(
        s,
        p,
        a,
        opt(a.end, types::spaced_type_arguments(s, a.end)),
    );
    let b = join(a, opt(a.end, types::spaced_type_arguments(s, a.end)));
}

/// `type_alias_name` matches nothing empty.
pub proof fn lemma_type_alias_name_progress(s: Seq<u8>, p: int)
    requires
        0 <= p <= s.len(),
    ensures
        types::type_alias_name(s, p).ok ==> p < types::type_alias_name(s, p).end <= s.len(),
{
    reveal_with_fuel(types::type_alias_name, 1);
    reveal_with_fuel(types::spaced_type_arguments, 1);
    crate::nesting::types::lemma_type_alias_name_nested(s, p);
    crate::nesting::names::lemma_alias_name_nested(s, p);
    crate::progress::names::lemma_alias_name_progress(s, p);
    let a = names::alias_name(s, p);
    if a.ok {
        crate::nesting::types::lemma_spaced_type_arguments_nested(s, a.end);
        lemma_opt_nested(s, a.end, types::spaced_type_arguments(s, a.end));
    }
    crate::nesting::forest::lemma_join_nested(
        s,
        p,
        a,
        opt(a.end, types::spaced_type_arguments(s, a.end)),
    );
    let b = join(a, opt(a.end, types::spaced_type_arguments(s, a.end)));
}

/// `type_arguments` matches nothing empty.
pub proof fn lemma_type_arguments_progress(s: Seq<u8>, p: int)
    requires
        0 <= p <= s.len(),
    ensures
        types::type_arguments(s, p).ok ==> p < types::type_arguments(s, p).end <= s.len(),
{
    reveal_with_fuel(types::type_arguments, 1);
    reveal_with_fuel(types::type_list, 1);
    crate::nesting::types::lemma_type_arguments_nested(s, p);
    lemma_byte_nested(s, p, LEFT_BRACKET);
    let a = byte(s, p, LEFT_BRACKET);
    if a.ok {
        lemma_trivia_nested(s, a.end);
    }
    crate::nesting::forest::lemma_join_nested(s, p, a, trivia(s, a.end));
    let b = join(a, trivia(s, a.end));
    if b.ok {
        crate::nesting::types::lemma_type_list_nested(s, b.end);
    }
    crate::nesting::forest::lemma_join_nested(s, p, b, types::type_list(s, b.end));
    let c = join(b, types::type_list(s, b.end));
    if c.ok {
        lemma_trivia_nested(s, c.end);
    }
    crate::nesting::forest::lemma_join_nested(s, p, c, trivia(s, c.end));
    let d = join(c, trivia(s, c.end));
    if d.ok {
        lemma_byte_nested(s, d.end, RIGHT_BRACKET);
    }
    crate::nesting::forest::lemma_join_nested(s, p, d, byte(s, d.end, RIGHT_BRACKET));
    let e = join(d, byte(s, d.end, RIGHT_BRACKET));
}

} // verus!
