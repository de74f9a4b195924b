use vstd::prelude::*;
use vstd::string::StringSliceAdditionalSpecFns;
use crate::grammar::lexical::{
    byte, keyword, trivia, COMMA, LEFT_BRACKET, LEFT_PAREN, RIGHT_BRACKET, RIGHT_PAREN,
};
use crate::grammar::step::{either, join, opt};
use crate::grammar::{literals, names, types};
use crate::nesting::forest::{
    lemma_byte_nested, lemma_either_nested, lemma_join_nested, lemma_keyword_nested,
    lemma_node_nested, lemma_opt_nested, lemma_quiet_nested, lemma_trivia_nested, nested,
};
use crate::rule::Rule;

verus! {

/// What `singleton_front` makes of any input is well behaved.
pub proof fn lemma_singleton_front_nested(s: Seq<u8>, p: int)
    requires
        0 <= p <= s.len(),
    ensures
        nested(s, p, types::singleton_front(s, p)),
{
    lemma_keyword_nested(s, p, "singleton".spec_bytes());
    let a = keyword(s, p, "singleton".spec_bytes());
    if a.ok {
        lemma_trivia_nested(s, a.end);
    }
    lemma_join_nested(s, p, a, trivia(s, a.end));
    let b = join(a, trivia(s, a.end));
    if b.ok {
        lemma_byte_nested(s, b.end, LEFT_PAREN);
    }
    lemma_join_nested(s, p, b, byte(s, b.end, LEFT_PAREN));
    let c = join(b, byte(s, b.end, LEFT_PAREN));
    if c.ok {
        lemma_trivia_nested(s, c.end);
    }
    lemma_join_nested(s, p, c, trivia(s, c.end));
    let d = join(c, trivia(s, c.end));
    if d.ok {
        crate::nesting::names::lemma_class_name_nested(s, d.end);
    }
    lemma_join_nested(s, p, d, names::class_name(s, d.end));
    let e = join(d, names::class_name(s, d.end));
    if e.ok {
        lemma_trivia_nested(s, e.end);
    }
    lemma_join_nested(s, p, e, trivia(s, e.end));
    let f = join(e, trivia(s, e.end));
}

/// What `type_singleton_class_name` makes of any input is well behaved.
pub proof fn lemma_type_singleton_class_name_nested(s: Seq<u8>, p: int)
    requires
        0 <= p <= s.len(),
    ensures
        nested(s, p, types::type_singleton_class_name(s, p)),
{
    reveal(types::type_singleton_class_name);
    crate::nesting::types::lemma_singleton_front_nested(s, p);
    let a = types::singleton_front(s, p);
    if a.ok {
        lemma_byte_nested(s, a.end, RIGHT_PAREN);
    }
    lemma_join_nested(s, p, a, byte(s, a.end, RIGHT_PAREN));
    let b = join(a, byte(s, a.end, RIGHT_PAREN));
    lemma_node_nested(s, Rule::TypeSingletonClassName, p, b);
}

/// What `type_expr` makes of any input is well behaved.
pub proof fn lemma_type_expr_nested(s: Seq<u8>, p: int)
    requires
        0 <= p <= s.len(),
    ensures
        nested(s, p, types::type_expr(s, p)),
    decreases s.len() - p, 5int,
{
    reveal_with_fuel(types::type_expr, 1);
    reveal_with_fuel(types::type_interface_name, 1);
    reveal_with_fuel(types::type_class_instance_name, 1);
    reveal_with_fuel(types::type_alias_name, 1);
    crate::nesting::types::lemma_type_singleton_class_name_nested(s, p);
    crate::nesting::types::lemma_type_interface_name_nested(s, p);
    crate::nesting::types::lemma_type_class_instance_name_nested(s, p);
    crate::nesting::types::lemma_type_alias_name_nested(s, p);
    crate::nesting::literals::lemma_literal_value_nested(s, p);
    lemma_either_nested(s, p, types::type_alias_name(s, p), literals::literal_value(s, p));
    lemma_either_nested(
        s,
        p,
        types::type_class_instance_name(s, p),
        either(types::type_alias_name(s, p), literals::literal_value(s, p)),
    );
    lemma_either_nested(
        s,
        p,
        types::type_interface_name(s, p),
        either(
            types::type_class_instance_name(s, p),
            either(types::type_alias_name(s, p), literals::literal_value(s, p)),
        ),
    );
    lemma_either_nested(
        s,
        p,
        types::type_singleton_class_name(s, p),
        either(
            types::type_interface_name(s, p),
            either(
                types::type_class_instance_name(s, p),
                either(types::type_alias_name(s, p), literals::literal_value(s, p)),
            ),
        ),
    );
    let a = either(
        types::type_singleton_class_name(s, p),
        either(
            types::type_interface_name(s, p),
            either(
                types::type_class_instance_name(s, p),
                either(types::type_alias_name(s, p), literals::literal_value(s, p)),
            ),
        ),
    );
    lemma_node_nested(s, Rule::Type, p, a);
}

/// What `spaced_type_arguments` makes of any input is well behaved.
pub proof fn lemma_spaced_type_arguments_nested(s: Seq<u8>, p: int)
    requires
        0 <= p <= s.len(),
    ensures
        nested(s, p, types::spaced_type_arguments(s, p)),
    decreases s.len() - p, 3int,
{
    reveal_with_fuel(types::spaced_type_arguments, 1);
    reveal_with_fuel(types::type_arguments, 1);
    lemma_trivia_nested(s, p);
    let a = trivia(s, p);
    if a.ok {
        crate::nesting::types::lemma_type_arguments_nested(s, a.end);
    }
    lemma_join_nested(s, p, a, types::type_arguments(s, a.end));
    let b = join(a, types::type_arguments(s, a.end));
    lemma_quiet_nested(s, p, b);
}

/// What `type_class_instance_name` makes of any input is well behaved.
pub proof fn lemma_type_class_instance_name_nested(s: Seq<u8>, p: int)
    requires
        0 <= p <= s.len(),
    ensures
        nested(s, p, types::type_class_instance_name(s, p)),
    decreases s.len() - p, 4int,
{
    reveal_with_fuel(types::type_class_instance_name, 1);
    reveal_with_fuel(types::spaced_type_arguments, 1);
    crate::nesting::names::lemma_class_name_nested(s, p);
    let a = names::class_name(s, p);
    if a.ok {
        crate::nesting::types::lemma_spaced_type_arguments_nested(s, a.end);
        lemma_opt_nested(s, a.end, types::spaced_type_arguments(s, a.end));
    }
    lemma_join_nested(s, p, a, opt(a.end, types::spaced_type_arguments(s, a.end)));
    let b = join(a, opt(a.end, types::spaced_type_arguments(s, a.end)));
    lemma_node_nested(s, Rule::TypeClassInstanceName, p, b);
}

/// What `type_interface_name` makes of any input is well behaved.
pub proof fn lemma_type_interface_name_nested(s: Seq<u8>, p: int)
    requires
        0 <= p <= s.len(),
    ensures
        nested(s, p, types::type_interface_name(s, p)),
    decreases s.len() - p, 4int,
{
    reveal_with_fuel(types::type_interface_name, 1);
    reveal_with_fuel(types::spaced_type_arguments, 1);
    crate::nesting::names::lemma_interface_name_nested(s, p);
    let a = names::interface_name(s, p);
    if a.ok {
        crate::nesting::types::lemma_spaced_type_arguments_nested(s, a.end);
        lemma_opt_nested(s, a.end, types::spaced_type_arguments(s, a.end));
    }
    lemma_join_nested(s, p, a, opt(a.end, types::spaced_type_arguments(s, a.end)));
    let b = join(a, opt(a.end, types::spaced_type_arguments(s, a.end)));
    lemma_node_nested(s, Rule::TypeInterfaceName, p, b);
}

/// What `type_alias_name` makes of any input is well behaved.
pub proof fn lemma_type_alias_name_nested(s: Seq<u8>, p: int)
    requires
        0 <= p <= s.len(),
    ensures
        nested(s, p, types::type_alias_name(s, p)),
    decreases s.len() - p, 4int,
{
    reveal_with_fuel(types::type_alias_name, 1);
    reveal_with_fuel(types::spaced_type_arguments, 1);
    crate::nesting::names::lemma_alias_name_nested(s, p);
    let a = names::alias_name(s, p);
    if a.ok {
        crate::nesting::types::lemma_spaced_type_arguments_nested(s, a.end);
        lemma_opt_nested(s, a.end, types::spaced_type_arguments(s, a.end));
    }
    lemma_join_nested(s, p, a, opt(a.end, types::spaced_type_arguments(s, a.end)));
    let b = join(a, opt(a.end, types::spaced_type_arguments(s, a.end)));
    lemma_node_nested(s, Rule::TypeAliasName, p, b);
}

/// What `type_arguments` makes of any input is well behaved.
pub proof fn lemma_type_arguments_nested(s: Seq<u8>, p: int)
    requires
        0 <= p <= s.len(),
    ensures
        nested(s, p, types::type_arguments(s, p)),
    decreases s.len() - p, 2int,
{
    reveal_with_fuel(types::type_arguments, 1);
    reveal_with_fuel(types::type_list, 1);
    lemma_byte_nested(s, p, LEFT_BRACKET);
    let a = byte(s, p, LEFT_BRACKET);
    if a.ok {
        lemma_trivia_nested(s, a.end);
    }
    lemma_join_nested(s, p, a, trivia(s, a.end));
    let b = join(a, trivia(s, a.end));
    if b.ok {
        crate::nesting::types::lemma_type_list_nested(s, b.end);
    }
    lemma_join_nested(s, p, b, types::type_list(s, b.end));
    let c = join(b, types::type_list(s, b.end));
    if c.ok {
        lemma_trivia_nested(s, c.end);
    }
    lemma_join_nested(s, p, c, trivia(s, c.end));
    let d = join(c, trivia(s, c.end));
    if d.ok {
        lemma_byte_nested(s, d.end, RIGHT_BRACKET);
    }
    lemma_join_nested(s, p, d, byte(s, d.end, RIGHT_BRACKET));
    let e = join(d, byte(s, d.end, RIGHT_BRACKET));
    lemma_node_nested(s, Rule::TypeArguments, p, e);
}

/// What `type_list` makes of any input is well behaved.
pub proof fn lemma_type_list_nested(s: Seq<u8>, p: int)
    requires
        0 <= p <= s.len(),
    ensures
        nested(s, p, types::type_list(s, p)),
    decreases s.len() - p, 6int,
{
    reveal_with_fuel(types::type_list, 1);
    reveal_with_fuel(types::type_expr, 1);
    reveal_with_fuel(types::more_types, 1);
    crate::nesting::types::lemma_type_expr_nested(s, p);
    let a = types::type_expr(s, p);
    if a.ok {
        crate::nesting::types::lemma_more_types_nested(s, a.end);
    }
    lemma_join_nested(s, p, a, types::more_types(s, a.end));
    let b = join(a, types::more_types(s, a.end));
}

/// What `comma_type` makes of any input is well behaved.
pub proof fn lemma_comma_type_nested(s: Seq<u8>, p: int)
    requires
        0 <= p <= s.len(),
    ensures
        nested(s, p, types::comma_type(s, p)),
    decreases s.len() - p, 0int,
{
    reveal_with_fuel(types::comma_type, 1);
    reveal_with_fuel(types::type_expr, 1);
    lemma_trivia_nested(s, p);
    let a = trivia(s, p);
    if a.ok {
        lemma_byte_nested(s, a.end, COMMA);
    }
    lemma_join_nested(s, p, a, byte(s, a.end, COMMA));
    let b = join(a, byte(s, a.end, COMMA));
    if b.ok {
        lemma_trivia_nested(s, b.end);
    }
    lemma_join_nested(s, p, b, trivia(s, b.end));
    let c = join(b, trivia(s, b.end));
    if c.ok {
        crate::nesting::types::lemma_type_expr_nested(s, c.end);
    }
    lemma_join_nested(s, p, c, types::type_expr(s, c.end));
    let d = join(c, types::type_expr(s, c.end));
    lemma_quiet_nested(s, p, d);
}

/// What `more_types` makes of any input is well behaved.
pub proof fn lemma_more_types_nested(s: Seq<u8>, p: int)
    requires
        0 <= p <= s.len(),
    ensures
        nested(s, p, types::more_types(s, p)),
    decreases s.len() - p, 1int,
{
    reveal_with_fuel(types::more_types, 1);
    reveal_with_fuel(types::comma_type, 1);
    let item = types::comma_type(s, p);
    crate::nesting::types::lemma_comma_type_nested(s, p);
    if item.ok && p < item.end <= s.len() {
        lemma_more_types_nested(s, item.end);
        lemma_join_nested(s, p, item, types::more_types(s, item.end));
    } else {
        lemma_opt_nested(s, p, item);
    }
}

} // verus!
