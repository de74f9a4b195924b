use vstd::prelude::*;
use vstd::string::StringSliceAdditionalSpecFns;
use crate::firmness::firm::{firm, lemma_join_firm, lemma_node_firm};
use crate::grammar::lexical::{
    byte, keyword, trivia, COMMA, LEFT_BRACKET, LEFT_PAREN, RIGHT_BRACKET, RIGHT_PAREN,
};
use crate::grammar::step::{either, join, opt};
use crate::grammar::{literals, names, types};
use crate::nesting::forest::{
    lemma_byte_nested, lemma_either_nested, lemma_join_nested, lemma_keyword_nested,
    lemma_opt_nested, lemma_trivia_nested,
};
use crate::rule::Rule;

verus! {

/// Every node that `singleton_front` leaves spans something.
pub proof fn lemma_singleton_front_firm(s: Seq<u8>, p: int)
    requires
        0 <= p <= s.len(),
    ensures
        firm(types::singleton_front(s, p)),
{
    lemma_keyword_nested(s, p, "singleton".spec_bytes());
    let a = keyword(s, p, "singleton".spec_bytes());
    if a.ok {
        lemma_trivia_nested(s, a.end);
    }
    crate::nesting::forest::lemma_join_nested(s, p, a, trivia(s, a.end));
    lemma_join_firm(a, trivia(s, a.end));
    let b = join(a, trivia(s, a.end));
    if b.ok {
        lemma_byte_nested(s, b.end, LEFT_PAREN);
    }
    crate::nesting::forest::lemma_join_nested(s, p, b, byte(s, b.end, LEFT_PAREN));
    lemma_join_firm(b, byte(s, b.end, LEFT_PAREN));
    let c = join(b, byte(s, b.end, LEFT_PAREN));
    if c.ok {
        lemma_trivia_nested(s, c.end);
    }
    crate::nesting::forest::lemma_join_nested(s, p, c, trivia(s, c.end));
    lemma_join_firm(c, trivia(s, c.end));
    let d = join(c, trivia(s, c.end));
    if d.ok {
        crate::nesting::names::lemma_class_name_nested(s, d.end);
        crate::firmness::names::lemma_class_name_firm(s, d.end);
    }
    crate::nesting::forest::lemma_join_nested(s, p, d, names::class_name(s, d.end));
    lemma_join_firm(d, names::class_name(s, d.end));
    let e = join(d, names::class_name(s, d.end));
    if e.ok {
        lemma_trivia_nested(s, e.end);
    }
    crate::nesting::forest::lemma_join_nested(s, p, e, trivia(s, e.end));
    lemma_join_firm(e, trivia(s, e.end));
    let f = join(e, trivia(s, e.end));
}

/// Every node that `type_singleton_class_name` leaves spans something.
pub proof fn lemma_type_singleton_class_name_firm(s: Seq<u8>, p: int)
    requires
        0 <= p <= s.len(),
    ensures
        firm(types::type_singleton_class_name(s, p)),
{
    reveal(types::type_singleton_class_name);
    crate::nesting::types::lemma_singleton_front_nested(s, p);
    crate::firmness::types::lemma_singleton_front_firm(s, p);
    let a = types::singleton_front(s, p);
    if a.ok {
        lemma_byte_nested(s, a.end, RIGHT_PAREN);
    }
    crate::nesting::forest::lemma_join_nested(s, p, a, byte(s, a.end, RIGHT_PAREN));
    lemma_join_firm(a, byte(s, a.end, RIGHT_PAREN));
    let b = join(a, byte(s, a.end, RIGHT_PAREN));
    crate::progress::types::lemma_type_singleton_class_name_progress(s, p);
    lemma_node_firm(Rule::TypeSingletonClassName, p, b);
}

/// Every node that `type_expr` leaves spans something.
pub proof fn lemma_type_expr_firm(s: Seq<u8>, p: int)
    requires
        0 <= p <= s.len(),
    ensures
        firm(types::type_expr(s, p)),
    decreases s.len() - p, 5int,
{
    reveal_with_fuel(types::type_expr, 1);
    reveal_with_fuel(types::type_interface_name, 1);
    reveal_with_fuel(types::type_class_instance_name, 1);
    reveal_with_fuel(types::type_alias_name, 1);
    crate::nesting::types::lemma_type_singleton_class_name_nested(s, p);
    crate::nesting::types::lemma_type_interface_name_nested(s, p);
    crate::nesting::types::lemma_type_class_instance_name_nested(s, p);
    crate::nesting::types::lemma_type_alias_name_nested(s, p);
    crate::nesting::literals::lemma_literal_value_nested(s, p);
    lemma_either_nested(s, p, types::type_alias_name(s, p), literals::literal_value(s, p));
    lemma_either_nested(
        s,
        p,
        types::type_class_instance_name(s, p),
        either(types::type_alias_name(s, p), literals::literal_value(s, p)),
    );
    lemma_either_nested(
        s,
        p,
        types::type_interface_name(s, p),
        either(
            types::type_class_instance_name(s, p),
            either(types::type_alias_name(s, p), literals::literal_value(s, p)),
        ),
    );
    lemma_either_nested(
        s,
        p,
        types::type_singleton_class_name(s, p),
        either(
            types::type_interface_name(s, p),
            either(
                types::type_class_instance_name(s, p),
                either(types::type_alias_name(s, p), literals::literal_value(s, p)),
            ),
        ),
    );
    crate::firmness::types::lemma_type_singleton_class_name_firm(s, p);
    crate::firmness::types::lemma_type_interface_name_firm(s, p);
    crate::firmness::types::lemma_type_class_instance_name_firm(s, p);
    crate::firmness::types::lemma_type_alias_name_firm(s, p);
    crate::firmness::literals::lemma_literal_value_firm(s, p);
    let a = either(
        types::type_singleton_class_name(s, p),
        either(
            types::type_interface_name(s, p),
            either(
                types::type_class_instance_name(s, p),
                either(types::type_alias_name(s, p), literals::literal_value(s, p)),
            ),
        ),
    );
    crate::progress::types::lemma_type_expr_progress(s, p);
    lemma_node_firm(Rule::Type, p, a);
}

/// Every node that `spaced_type_arguments` leaves spans something.
pub proof fn lemma_spaced_type_arguments_firm(s: Seq<u8>, p: int)
    requires
        0 <= p <= s.len(),
    ensures
        firm(types::spaced_type_arguments(s, p)),
    decreases s.len() - p, 3int,
{
    reveal_with_fuel(types::spaced_type_arguments, 1);
    reveal_with_fuel(types::type_arguments, 1);
    lemma_trivia_nested(s, p);
    let a = trivia(s, p);
    if a.ok {
        crate::nesting::types::lemma_type_arguments_nested(s, a.end);
        crate::firmness::types::lemma_type_arguments_firm(s, a.end);
    }
    crate::nesting::forest::lemma_join_nested(s, p, a, types::type_arguments(s, a.end));
    lemma_join_firm(a, types::type_arguments(s, a.end));
    let b = join(a, types::type_arguments(s, a.end));
}

/// Every node that `type_class_instance_name` leaves spans something.
pub proof fn lemma_type_class_instance_name_firm(s: Seq<u8>, p: int)
    requires
        0 <= p <= s.len(),
    ensures
        firm(types::type_class_instance_name(s, p)),
    decreases s.len() - p, 4int,
{
    reveal_with_fuel(types::type_class_instance_name, 1);
    reveal_with_fuel(types::spaced_type_arguments, 1);
    crate::nesting::names::lemma_class_name_nested(s, p);
    crate::firmness::names::lemma_class_name_firm(s, p);
    let a = names::class_name(s, p);
    if a.ok {
        crate::nesting::types::lemma_spaced_type_arguments_nested(s, a.end);
        lemma_opt_nested(s, a.end, types::spaced_type_arguments(s, a.end));
        crate::firmness::types::lemma_spaced_type_arguments_firm(s, a.end);
    }
    crate::nesting::forest::lemma_join_nested(
        s,
        p,
        a,
        opt(a.end, types::spaced_type_arguments(s, a.end)),
    );
    lemma_join_firm(a, opt(a.end, types::spaced_type_arguments(s, a.end)));
    let b = join(a, opt(a.end, types::spaced_type_arguments(s, a.end)));
    crate::progress::types::lemma_type_class_instance_name_progress(s, p);
    lemma_node_firm(Rule::TypeClassInstanceName, p, b);
}

/// Every node that `type_interface_name` leaves spans something.
pub proof fn lemma_type_interface_name_firm(s: Seq<u8>, p: int)
    requires
        0 <= p <= s.len(),
    ensures
        firm(types::type_interface_name(s, p)),
    decreases s.len() - p, 4int,
{
    reveal_with_fuel(types::type_interface_name, 1);
    reveal_with_fuel(types::spaced_type_arguments, 1);
    crate::nesting::names::lemma_interface_name_nested(s, p);
    crate::firmness::names::lemma_interface_name_firm(s, p);
    let a = names::interface_name(s, p);
    if a.ok {
        crate::nesting::types::lemma_spaced_type_arguments_nested(s, a.end);
        lemma_opt_nested(s, a.end, types::spaced_type_arguments(s, a.end));
        crate::firmness::types::lemma_spaced_type_arguments_firm(s, a.end);
    }
    crate::nesting::forest::lemma_join_nested(
        s,
        p,
        a,
        opt(a.end, types::spaced_type_arguments(s, a.end)),
    );
    lemma_join_firm(a, opt(a.end, types::spaced_type_arguments(s, a.end)));
    let b = join(a, opt(a.end, types::spaced_type_arguments(s, a.end)));
    crate::progress::types::lemma_type_interface_name_progress(s, p);
    lemma_node_firm(Rule::TypeInterfaceName, p, b);
}

/// Every node that `type_alias_name` leaves spans something.
pub proof fn lemma_type_alias_name_firm(s: Seq<u8>, p: int)
    requires
        0 <= p <= s.len(),
    ensures
        firm(types::type_alias_name(s, p)),
    decreases s.len() - p, 4int,
{
    reveal_with_fuel(types::type_alias_name, 1);
    reveal_with_fuel(types::spaced_type_arguments, 1);
    crate::nesting::names::lemma_alias_name_nested(s, p);
    crate::firmness::names::lemma_alias_name_firm(s, p);
    let a = names::alias_name(s, p);
    if a.ok {
        crate::nesting::types::lemma_spaced_type_arguments_nested(s, a.end);
        lemma_opt_nested(s, a.end, types::spaced_type_arguments(s, a.end));
        crate::firmness::types::lemma_spaced_type_arguments_firm(s, a.end);
    }
    crate::nesting::forest::lemma_join_nested(
        s,
        p,
        a,
        opt(a.end, types::spaced_type_arguments(s, a.end)),
    );
    lemma_join_firm(a, opt(a.end, types::spaced_type_arguments(s, a.end)));
    let b = join(a, opt(a.end, types::spaced_type_arguments(s, a.end)));
    crate::progress::types::lemma_type_alias_name_progress(s, p);
    lemma_node_firm(Rule::TypeAliasName, p, b);
}

/// Every node that `type_arguments` leaves spans something.
pub proof fn lemma_type_arguments_firm(s: Seq<u8>, p: int)
    requires
        0 <= p <= s.len(),
    ensures
        firm(types::type_arguments(s, p)),
    decreases s.len() - p, 2int,
{
    reveal_with_fuel(types::type_arguments, 1);
    reveal_with_fuel(types::type_list, 1);
    lemma_byte_nested(s, p, LEFT_BRACKET);
    let a = byte(s, p, LEFT_BRACKET);
    if a.ok {
        lemma_trivia_nested(s, a.end);
    }
    crate::nesting::forest::lemma_join_nested(s, p, a, trivia(s, a.end));
    lemma_join_firm(a, trivia(s, a.end));
    let b = join(a, trivia(s, a.end));
    if b.ok {
        crate::nesting::types::lemma_type_list_nested(s, b.end);
        crate::firmness::types::lemma_type_list_firm(s, b.end);
    }
    crate::nesting::forest::lemma_join_nested(s, p, b, types::type_list(s, b.end));
    lemma_join_firm(b, types::type_list(s, b.end));
    let c = join(b, types::type_list(s, b.end));
    if c.ok {
        lemma_trivia_nested(s, c.end);
    }
    crate::nesting::forest::lemma_join_nested(s, p, c, trivia(s, c.end));
    lemma_join_firm(c, trivia(s, c.end));
    let d = join(c, trivia(s, c.end));
    if d.ok {
        lemma_byte_nested(s, d.end, RIGHT_BRACKET);
    }
    crate::nesting::forest::lemma_join_nested(s, p, d, byte(s, d.end, RIGHT_BRACKET));
    lemma_join_firm(d, byte(s, d.end, RIGHT_BRACKET));
    let e = join(d, byte(s, d.end, RIGHT_BRACKET));
    crate::progress::types::lemma_type_arguments_progress(s, p);
    lemma_node_firm(Rule::TypeArguments, p, e);
}

/// Every node that `type_list` leaves spans something.
pub proof fn lemma_type_list_firm(s: Seq<u8>, p: int)
    requires
        0 <= p <= s.len(),
    ensures
        firm(types::type_list(s, p)),
    decreases s.len() - p, 6int,
{
    reveal_with_fuel(types::type_list, 1);
    reveal_with_fuel(types::type_expr, 1);
    reveal_with_fuel(types::more_types, 1);
    crate::nesting::types::lemma_type_expr_nested(s, p);
    crate::firmness::types::lemma_type_expr_firm(s, p);
    let a = types::type_expr(s, p);
    if a.ok {
        crate::nesting::types::lemma_more_types_nested(s, a.end);
        crate::firmness::types::lemma_more_types_firm(s, a.end);
    }
    crate::nesting::forest::lemma_join_nested(s, p, a, types::more_types(s, a.end));
    lemma_join_firm(a, types::more_types(s, a.end));
    let b = join(a, types::more_types(s, a.end));
}

/// Every node that `comma_type` leaves spans something.
pub proof fn lemma_comma_type_firm(s: Seq<u8>, p: int)
    requires
        0 <= p <= s.len(),
    ensures
        firm(types::comma_type(s, p)),
    decreases s.len() - p, 0int,
{
    reveal_with_fuel(types::comma_type, 1);
    reveal_with_fuel(types::type_expr, 1);
    lemma_trivia_nested(s, p);
    let a = trivia(s, p);
    if a.ok {
        lemma_byte_nested(s, a.end, COMMA);
    }
    crate::nesting::forest::lemma_join_nested(s, p, a, byte(s, a.end, COMMA));
    lemma_join_firm(a, byte(s, a.end, COMMA));
    let b = join(a, byte(s, a.end, COMMA));
    if b.ok {
        lemma_trivia_nested(s, b.end);
    }
    crate::nesting::forest::lemma_join_nested(s, p, b, trivia(s, b.end));
    lemma_join_firm(b, trivia(s, b.end));
    let c = join(b, trivia(s, b.end));
    if c.ok {
        crate::nesting::types::lemma_type_expr_nested(s, c.end);
        crate::firmness::types::lemma_type_expr_firm(s, c.end);
    }
    crate::nesting::forest::lemma_join_nested(s, p, c, types::type_expr(s, c.end));
    lemma_join_firm(c, types::type_expr(s, c.end));
    let d = join(c, types::type_expr(s, c.end));
}

/// Every node that `more_types` leaves spans something.
pub proof fn lemma_more_types_firm(s: Seq<u8>, p: int)
    requires
        0 <= p <= s.len(),
    ensures
        firm(types::more_types(s, p)),
    decreases s.len() - p, 1int,
{
    reveal_with_fuel(types::more_types, 1);
    reveal_with_fuel(types::comma_type, 1);
    let item = types::comma_type(s, p);
    crate::nesting::types::lemma_comma_type_nested(s, p);
    crate::firmness::types::lemma_comma_type_firm(s, p);
    if item.ok && p < item.end <= s.len() {
        lemma_more_types_firm(s, item.end);
        lemma_join_firm(item, types::more_types(s, item.end));
    }
}

} // verus!
