use vstd::prelude::*;
use vstd::string::StringSliceAdditionalSpecFns;
use crate::grammar::lexical::{
    byte, keyword, trivia, COMMA, LEFT_BRACKET, LEFT_PAREN, RIGHT_BRACKET, RIGHT_PAREN,
};
use crate::grammar::step::{either, join, opt};
use crate::grammar::{literals, names, types};
use crate::nesting::forest::{lemma_byte_nested, lemma_keyword_nested, lemma_trivia_nested};
use crate::rule::Rule;
use crate::shifting::moved::{
    lemma_byte_moved, lemma_keyword_moved, lemma_moved_either, lemma_moved_join, lemma_moved_node,
    lemma_moved_opt, lemma_moved_quiet, lemma_same_from_later, lemma_trivia_moved, moved,
    same_from,
};

verus! {

/// `singleton_front` does the same where the same text stands at another offset.
pub proof fn lemma_singleton_front_moved(s: Seq<u8>, p: int, t: Seq<u8>, k: int)
    requires
        same_from(s, p, t, k),
    ensures
        types::singleton_front(t, p + k) == moved(types::singleton_front(s, p), k),
{
    lemma_keyword_nested(s, p, "singleton".spec_bytes());
    lemma_keyword_moved(s, p, t, k, "singleton".spec_bytes());
    let a = keyword(s, p, "singleton".spec_bytes());
    if a.ok {
        lemma_same_from_later(s, p, t, k, a.end);
        lemma_trivia_nested(s, a.end);
        lemma_trivia_moved(s, a.end, t, k);
    }
    crate::nesting::forest::lemma_join_nested(s, p, a, trivia(s, a.end));
    lemma_moved_join(a, trivia(s, a.end), k);
    let b = join(a, trivia(s, a.end));
    if b.ok {
        lemma_same_from_later(s, p, t, k, b.end);
        lemma_byte_nested(s, b.end, LEFT_PAREN);
        lemma_byte_moved(s, b.end, t, k, LEFT_PAREN);
    }
    crate::nesting::forest::lemma_join_nested(s, p, b, byte(s, b.end, LEFT_PAREN));
    lemma_moved_join(b, byte(s, b.end, LEFT_PAREN), k);
    let c = join(b, byte(s, b.end, LEFT_PAREN));
    if c.ok {
        lemma_same_from_later(s, p, t, k, c.end);
        lemma_trivia_nested(s, c.end);
        lemma_trivia_moved(s, c.end, t, k);
    }
    crate::nesting::forest::lemma_join_nested(s, p, c, trivia(s, c.end));
    lemma_moved_join(c, trivia(s, c.end), k);
    let d = join(c, trivia(s, c.end));
    if d.ok {
        lemma_same_from_later(s, p, t, k, d.end);
        crate::nesting::names::lemma_class_name_nested(s, d.end);
        crate::shifting::names::lemma_class_name_moved(s, d.end, t, k);
    }
    crate::nesting::forest::lemma_join_nested(s, p, d, names::class_name(s, d.end));
    lemma_moved_join(d, names::class_name(s, d.end), k);
    let e = join(d, names::class_name(s, d.end));
    if e.ok {
        lemma_same_from_later(s, p, t, k, e.end);
        lemma_trivia_nested(s, e.end);
        lemma_trivia_moved(s, e.end, t, k);
    }
    crate::nesting::forest::lemma_join_nested(s, p, e, trivia(s, e.end));
    lemma_moved_join(e, trivia(s, e.end), k);
    let f = join(e, trivia(s, e.end));
}

/// `type_singleton_class_name` does the same where the same text stands at another offset.
pub proof fn lemma_type_singleton_class_name_moved(s: Seq<u8>, p: int, t: Seq<u8>, k: int)
    requires
        same_from(s, p, t, k),
    ensures
        types::type_singleton_class_name(t, p + k) == moved(types::type_singleton_class_name(s, p), k),
{
    reveal(types::type_singleton_class_name);
    crate::nesting::types::lemma_singleton_front_nested(s, p);
    crate::shifting::types::lemma_singleton_front_moved(s, p, t, k);
    let a = types::singleton_front(s, p);
    if a.ok {
        lemma_same_from_later(s, p, t, k, a.end);
        lemma_byte_nested(s, a.end, RIGHT_PAREN);
        lemma_byte_moved(s, a.end, t, k, RIGHT_PAREN);
    }
    crate::nesting::forest::lemma_join_nested(s, p, a, byte(s, a.end, RIGHT_PAREN));
    lemma_moved_join(a, byte(s, a.end, RIGHT_PAREN), k);
    let b = join(a, byte(s, a.end, RIGHT_PAREN));
    lemma_moved_node(Rule::TypeSingletonClassName, p, b, k);
}

/// `type_expr` does the same where the same text stands at another offset.
pub proof fn lemma_type_expr_moved(s: Seq<u8>, p: int, t: Seq<u8>, k: int)
    requires
        same_from(s, p, t, k),
    ensures
        types::type_expr(t, p + k) == moved(types::type_expr(s, p), k),
    decreases s.len() - p, 5int,
{
    reveal_with_fuel(types::type_expr, 1);
    reveal_with_fuel(types::type_interface_name, 1);
    reveal_with_fuel(types::type_class_instance_name, 1);
    reveal_with_fuel(types::type_alias_name, 1);
    crate::nesting::types::lemma_type_singleton_class_name_nested(s, p);
    crate::shifting::types::lemma_type_singleton_class_name_moved(s, p, t, k);
    crate::nesting::types::lemma_type_interface_name_nested(s, p);
    crate::shifting::types::lemma_type_interface_name_moved(s, p, t, k);
    crate::nesting::types::lemma_type_class_instance_name_nested(s, p);
    crate::shifting::types::lemma_type_class_instance_name_moved(s, p, t, k);
    crate::nesting::types::lemma_type_alias_name_nested(s, p);
    crate::shifting::types::lemma_type_alias_name_moved(s, p, t, k);
    crate::nesting::literals::lemma_literal_value_nested(s, p);
    crate::shifting::literals::lemma_literal_value_moved(s, p, t, k);
    lemma_moved_either(types::type_alias_name(s, p), literals::literal_value(s, p), k);
    lemma_moved_either(
        types::type_class_instance_name(s, p),
        either(types::type_alias_name(s, p), literals::literal_value(s, p)),
        k,
    );
    lemma_moved_either(
        types::type_interface_name(s, p),
        either(
            types::type_class_instance_name(s, p),
            either(types::type_alias_name(s, p), literals::literal_value(s, p)),
        ),
        k,
    );
    lemma_moved_either(
        types::type_singleton_class_name(s, p),
        either(
            types::type_interface_name(s, p),
            either(
                types::type_class_instance_name(s, p),
                either(types::type_alias_name(s, p), literals::literal_value(s, p)),
            ),
        ),
        k,
    );
    let a = either(
        types::type_singleton_class_name(s, p),
        either(
            types::type_interface_name(s, p),
            either(
                types::type_class_instance_name(s, p),
                either(types::type_alias_name(s, p), literals::literal_value(s, p)),
            ),
        ),
    );
    lemma_moved_node(Rule::Type, p, a, k);
}

/// `spaced_type_arguments` does the same where the same text stands at another offset.
pub proof fn lemma_spaced_type_arguments_moved(s: Seq<u8>, p: int, t: Seq<u8>, k: int)
    requires
        same_from(s, p, t, k),
    ensures
        types::spaced_type_arguments(t, p + k) == moved(types::spaced_type_arguments(s, p), k),
    decreases s.len() - p, 3int,
{
    reveal_with_fuel(types::spaced_type_arguments, 1);
    reveal_with_fuel(types::type_arguments, 1);
    lemma_trivia_nested(s, p);
    lemma_trivia_moved(s, p, t, k);
    let a = trivia(s, p);
    if a.ok {
        lemma_same_from_later(s, p, t, k, a.end);
        crate::nesting::types::lemma_type_arguments_nested(s, a.end);
        crate::shifting::types::lemma_type_arguments_moved(s, a.end, t, k);
    }
    crate::nesting::forest::lemma_join_nested(s, p, a, types::type_arguments(s, a.end));
    lemma_moved_join(a, types::type_arguments(s, a.end), k);
    let b = join(a, types::type_arguments(s, a.end));
    lemma_moved_quiet(p, b, k);
}

/// `type_class_instance_name` does the same where the same text stands at another offset.
pub proof fn lemma_type_class_instance_name_moved(s: Seq<u8>, p: int, t: Seq<u8>, k: int)
    requires
        same_from(s, p, t, k),
    ensures
        types::type_class_instance_name(t, p + k) == moved(types::type_class_instance_name(s, p), k),
    decreases s.len() - p, 4int,
{
    reveal_with_fuel(types::type_class_instance_name, 1);
    reveal_with_fuel(types::spaced_type_arguments, 1);
    crate::nesting::names::lemma_class_name_nested(s, p);
    crate::shifting::names::lemma_class_name_moved(s, p, t, k);
    let a = names::class_name(s, p);
    if a.ok {
        lemma_same_from_later(s, p, t, k, a.end);
        crate::nesting::types::lemma_spaced_type_arguments_nested(s, a.end);
        crate::shifting::types::lemma_spaced_type_arguments_moved(s, a.end, t, k);
        lemma_moved_opt(a.end, types::spaced_type_arguments(s, a.end), k);
    }
    crate::nesting::forest::lemma_join_nested(
        s,
        p,
        a,
        opt(a.end, types::spaced_type_arguments(s, a.end)),
    );
    lemma_moved_join(a, opt(a.end, types::spaced_type_arguments(s, a.end)), k);
    let b = join(a, opt(a.end, types::spaced_type_arguments(s, a.end)));
    lemma_moved_node(Rule::TypeClassInstanceName, p, b, k);
}

/// `type_interface_name` does the same where the same text stands at another offset.
pub proof fn lemma_type_interface_name_moved(s: Seq<u8>, p: int, t: Seq<u8>, k: int)
    requires
        same_from(s, p, t, k),
    ensures
        types::type_interface_name(t, p + k) == moved(types::type_interface_name(s, p), k),
    decreases s.len() - p, 4int,
{
    reveal_with_fuel(types::type_interface_name, 1);
    reveal_with_fuel(types::spaced_type_arguments, 1);
    crate::nesting::names::lemma_interface_name_nested(s, p);
    crate::shifting::names::lemma_interface_name_moved(s, p, t, k);
    let a = names::interface_name(s, p);
    if a.ok {
        lemma_same_from_later(s, p, t, k, a.end);
        crate::nesting::types::lemma_spaced_type_arguments_nested(s, a.end);
        crate::shifting::types::lemma_spaced_type_arguments_moved(s, a.end, t, k);
        lemma_moved_opt(a.end, types::spaced_type_arguments(s, a.end), k);
    }
    crate::nesting::forest::lemma_join_nested(
        s,
        p,
        a,
        opt(a.end, types::spaced_type_arguments(s, a.end)),
    );
    lemma_moved_join(a, opt(a.end, types::spaced_type_arguments(s, a.end)), k);
    let b = join(a, opt(a.end, types::spaced_type_arguments(s, a.end)));
    lemma_moved_node(Rule::TypeInterfaceName, p, b, k);
}

/// `type_alias_name` does the same where the same text stands at another offset.
pub proof fn lemma_type_alias_name_moved(s: Seq<u8>, p: int, t: Seq<u8>, k: int)
    requires
        same_from(s, p, t, k),
    ensures
        types::type_alias_name(t, p + k) == moved(types::type_alias_name(s, p), k),
    decreases s.len() - p, 4int,
{
    reveal_with_fuel(types::type_alias_name, 1);
    reveal_with_fuel(types::spaced_type_arguments, 1);
    crate::nesting::names::lemma_alias_name_nested(s, p);
    crate::shifting::names::lemma_alias_name_moved(s, p, t, k);
    let a = names::alias_name(s, p);
    if a.ok {
        lemma_same_from_later(s, p, t, k, a.end);
        crate::nesting::types::lemma_spaced_type_arguments_nested(s, a.end);
        crate::shifting::types::lemma_spaced_type_arguments_moved(s, a.end, t, k);
        lemma_moved_opt(a.end, types::spaced_type_arguments(s, a.end), k);
    }
    crate::nesting::forest::lemma_join_nested(
        s,
        p,
        a,
        opt(a.end, types::spaced_type_arguments(s, a.end)),
    );
    lemma_moved_join(a, opt(a.end, types::spaced_type_arguments(s, a.end)), k);
    let b = join(a, opt(a.end, types::spaced_type_arguments(s, a.end)));
    lemma_moved_node(Rule::TypeAliasName, p, b, k);
}

/// `type_arguments` does the same where the same text stands at another offset.
pub proof fn lemma_type_arguments_moved(s: Seq<u8>, p: int, t: Seq<u8>, k: int)
    requires
        same_from(s, p, t, k),
    ensures
        types::type_arguments(t, p + k) == moved(types::type_arguments(s, p), k),
    decreases s.len() - p, 2int,
{
    reveal_with_fuel(types::type_arguments, 1);
    reveal_with_fuel(types::type_list, 1);
    lemma_byte_nested(s, p, LEFT_BRACKET);
    lemma_byte_moved(s, p, t, k, LEFT_BRACKET);
    let a = byte(s, p, LEFT_BRACKET);
    if a.ok {
        lemma_same_from_later(s, p, t, k, a.end);
        lemma_trivia_nested(s, a.end);
        lemma_trivia_moved(s, a.end, t, k);
    }
    crate::nesting::forest::lemma_join_nested(s, p, a, trivia(s, a.end));
    lemma_moved_join(a, trivia(s, a.end), k);
    let b = join(a, trivia(s, a.end));
    if b.ok {
        lemma_same_from_later(s, p, t, k, b.end);
        crate::nesting::types::lemma_type_list_nested(s, b.end);
        crate::shifting::types::lemma_type_list_moved(s, b.end, t, k);
    }
    crate::nesting::forest::lemma_join_nested(s, p, b, types::type_list(s, b.end));
    lemma_moved_join(b, types::type_list(s, b.end), k);
    let c = join(b, types::type_list(s, b.end));
    if c.ok {
        lemma_same_from_later(s, p, t, k, c.end);
        lemma_trivia_nested(s, c.end);
        lemma_trivia_moved(s, c.end, t, k);
    }
    crate::nesting::forest::lemma_join_nested(s, p, c, trivia(s, c.end));
    lemma_moved_join(c, trivia(s, c.end), k);
    let d = join(c, trivia(s, c.end));
    if d.ok {
        lemma_same_from_later(s, p, t, k, d.end);
        lemma_byte_nested(s, d.end, RIGHT_BRACKET);
        lemma_byte_moved(s, d.end, t, k, RIGHT_BRACKET);
    }
    crate::nesting::forest::lemma_join_nested(s, p, d, byte(s, d.end, RIGHT_BRACKET));
    lemma_moved_join(d, byte(s, d.end, RIGHT_BRACKET), k);
    let e = join(d, byte(s, d.end, RIGHT_BRACKET));
    lemma_moved_node(Rule::TypeArguments, p, e, k);
}

/// `type_list` does the same where the same text stands at another offset.
pub proof fn lemma_type_list_moved(s: Seq<u8>, p: int, t: Seq<u8>, k: int)
    requires
        same_from(s, p, t, k),
    ensures
        types::type_list(t, p + k) == moved(types::type_list(s, p), k),
    decreases s.len() - p, 6int,
{
    reveal_with_fuel(types::type_list, 1);
    reveal_with_fuel(types::type_expr, 1);
    reveal_with_fuel(types::more_types, 1);
    crate::nesting::types::lemma_type_expr_nested(s, p);
    crate::shifting::types::lemma_type_expr_moved(s, p, t, k);
    let a = types::type_expr(s, p);
    if a.ok {
        lemma_same_from_later(s, p, t, k, a.end);
        crate::nesting::types::lemma_more_types_nested(s, a.end);
        crate::shifting::types::lemma_more_types_moved(s, a.end, t, k);
    }
    crate::nesting::forest::lemma_join_nested(s, p, a, types::more_types(s, a.end));
    lemma_moved_join(a, types::more_types(s, a.end), k);
    let b = join(a, types::more_types(s, a.end));
}

/// `comma_type` does the same where the same text stands at another offset.
pub proof fn lemma_comma_type_moved(s: Seq<u8>, p: int, t: Seq<u8>, k: int)
    requires
        same_from(s, p, t, k),
    ensures
        types::comma_type(t, p + k) == moved(types::comma_type(s, p), k),
    decreases s.len() - p, 0int,
{
    reveal_with_fuel(types::comma_type, 1);
    reveal_with_fuel(types::type_expr, 1);
    lemma_trivia_nested(s, p);
    lemma_trivia_moved(s, p, t, k);
    let a = trivia(s, p);
    if a.ok {
        lemma_same_from_later(s, p, t, k, a.end);
        lemma_byte_nested(s, a.end, COMMA);
        lemma_byte_moved(s, a.end, t, k, COMMA);
    }
    crate::nesting::forest::lemma_join_nested(s, p, a, byte(s, a.end, COMMA));
    lemma_moved_join(a, byte(s, a.end, COMMA), k);
    let b = join(a, byte(s, a.end, COMMA));
    if b.ok {
        lemma_same_from_later(s, p, t, k, b.end);
        lemma_trivia_nested(s, b.end);
        lemma_trivia_moved(s, b.end, t, k);
    }
    crate::nesting::forest::lemma_join_nested(s, p, b, trivia(s, b.end));
    lemma_moved_join(b, trivia(s, b.end), k);
    let c = join(b, trivia(s, b.end));
    if c.ok {
        lemma_same_from_later(s, p, t, k, c.end);
        crate::nesting::types::lemma_type_expr_nested(s, c.end);
        crate::shifting::types::lemma_type_expr_moved(s, c.end, t, k);
    }
    crate::nesting::forest::lemma_join_nested(s, p, c, types::type_expr(s, c.end));
    lemma_moved_join(c, types::type_expr(s, c.end), k);
    let d = join(c, types::type_expr(s, c.end));
    lemma_moved_quiet(p, d, k);
}

/// `more_types` does the same where the same text stands at another offset.
pub proof fn lemma_more_types_moved(s: Seq<u8>, p: int, t: Seq<u8>, k: int)
    requires
        same_from(s, p, t, k),
    ensures
        types::more_types(t, p + k) == moved(types::more_types(s, p), k),
    decreases s.len() - p, 1int,
{
    reveal_with_fuel(types::more_types, 1);
    reveal_with_fuel(types::comma_type, 1);
    let item = types::comma_type(s, p);
    crate::nesting::types::lemma_comma_type_nested(s, p);
    crate::shifting::types::lemma_comma_type_moved(s, p, t, k);
    if item.ok && p < item.end <= s.len() {
        lemma_same_from_later(s, p, t, k, item.end);
        lemma_more_types_moved(s, item.end, t, k);
        lemma_moved_join(item, types::more_types(s, item.end), k);
    } else {
        lemma_moved_opt(p, item, k);
    }
}

} // verus!
