use vstd::prelude::*;
use vstd::string::StringSliceAdditionalSpecFns;
use crate::firmness::firm::{firm, lemma_join_firm, lemma_node_firm};
use crate::grammar::lexical::{
    byte, keyword, trivia, COLON, COMMA, LEFT_BRACKET, LESS, RIGHT_BRACKET,
};
use crate::grammar::step::{either, join, opt};
use crate::grammar::{declarations, members, names, types};
use crate::nesting::forest::{
    lemma_byte_nested, lemma_either_nested, lemma_join_nested, lemma_keyword_nested,
    lemma_opt_nested, lemma_trivia_nested,
};
use crate::rule::Rule;

verus! {

/// Every node that `unchecked` leaves spans something.
pub proof fn lemma_unchecked_firm(s: Seq<u8>, p: int)
    requires
        0 <= p <= s.len(),
    ensures
        firm(declarations::unchecked(s, p)),
{
    reveal(declarations::unchecked);
    lemma_keyword_nested(s, p, "unchecked".spec_bytes());
    let a = keyword(s, p, "unchecked".spec_bytes());
    crate::progress::declarations::lemma_unchecked_progress(s, p);
    lemma_node_firm(Rule::Unchecked, p, a);
}

/// Every node that `variance_out` leaves spans something.
pub proof fn lemma_variance_out_firm(s: Seq<u8>, p: int)
    requires
        0 <= p <= s.len(),
    ensures
        firm(declarations::variance_out(s, p)),
{
    reveal(declarations::variance_out);
    lemma_keyword_nested(s, p, "out".spec_bytes());
    let a = keyword(s, p, "out".spec_bytes());
    crate::progress::declarations::lemma_variance_out_progress(s, p);
    lemma_node_firm(Rule::VarianceOut, p, a);
}

/// Every node that `variance_in` leaves spans something.
pub proof fn lemma_variance_in_firm(s: Seq<u8>, p: int)
    requires
        0 <= p <= s.len(),
    ensures
        firm(declarations::variance_in(s, p)),
{
    reveal(declarations::variance_in);
    lemma_keyword_nested(s, p, "in".spec_bytes());
    let a = keyword(s, p, "in".spec_bytes());
    crate::progress::declarations::lemma_variance_in_progress(s, p);
    lemma_node_firm(Rule::VarianceIn, p, a);
}

/// Every node that `spaced_unchecked` leaves spans something.
pub proof fn lemma_spaced_unchecked_firm(s: Seq<u8>, p: int)
    requires
        0 <= p <= s.len(),
    ensures
        firm(declarations::spaced_unchecked(s, p)),
{
    reveal(declarations::spaced_unchecked);
    crate::nesting::declarations::lemma_unchecked_nested(s, p);
    crate::firmness::declarations::lemma_unchecked_firm(s, p);
    let a = declarations::unchecked(s, p);
    if a.ok {
        lemma_trivia_nested(s, a.end);
    }
    crate::nesting::forest::lemma_join_nested(s, p, a, trivia(s, a.end));
    lemma_join_firm(a, trivia(s, a.end));
    let b = join(a, trivia(s, a.end));
}

/// Every node that `spaced_variance` leaves spans something.
pub proof fn lemma_spaced_variance_firm(s: Seq<u8>, p: int)
    requires
        0 <= p <= s.len(),
    ensures
        firm(declarations::spaced_variance(s, p)),
{
    reveal(declarations::spaced_variance);
    crate::nesting::declarations::lemma_variance_out_nested(s, p);
    crate::nesting::declarations::lemma_variance_in_nested(s, p);
    lemma_either_nested(s, p, declarations::variance_out(s, p), declarations::variance_in(s, p));
    crate::firmness::declarations::lemma_variance_out_firm(s, p);
    crate::firmness::declarations::lemma_variance_in_firm(s, p);
    let a = either(declarations::variance_out(s, p), declarations::variance_in(s, p));
    if a.ok {
        lemma_trivia_nested(s, a.end);
    }
    crate::nesting::forest::lemma_join_nested(s, p, a, trivia(s, a.end));
    lemma_join_firm(a, trivia(s, a.end));
    let b = join(a, trivia(s, a.end));
}

/// Every node that `modifiers` leaves spans something.
pub proof fn lemma_modifiers_firm(s: Seq<u8>, p: int)
    requires
        0 <= p <= s.len(),
    ensures
        firm(declarations::modifiers(s, p)),
{
    reveal(declarations::modifiers);
    let a = declarations::spaced_unchecked(s, p);
    let b = declarations::spaced_variance(s, p);
    crate::nesting::declarations::lemma_spaced_unchecked_nested(s, p);
    crate::nesting::declarations::lemma_spaced_variance_nested(s, p);
    lemma_spaced_unchecked_firm(s, p);
    lemma_spaced_variance_firm(s, p);
    if a.ok {
        lemma_spaced_variance_firm(s, a.end);
    }
    lemma_join_firm(a, opt(a.end, declarations::spaced_variance(s, a.end)));
    if b.ok {
        lemma_spaced_unchecked_firm(s, b.end);
    }
    lemma_join_firm(b, opt(b.end, declarations::spaced_unchecked(s, b.end)));
}

/// Every node that `type_param_name` leaves spans something.
pub proof fn lemma_type_param_name_firm(s: Seq<u8>, p: int)
    requires
        0 <= p <= s.len(),
    ensures
        firm(declarations::type_param_name(s, p)),
{
    reveal(declarations::type_param_name);
    crate::nesting::names::lemma_upper_ident_nested(s, p);
    crate::firmness::names::lemma_upper_ident_firm(s, p);
    let a = names::upper_ident(s, p);
    crate::progress::declarations::lemma_type_param_name_progress(s, p);
    lemma_node_firm(Rule::TypeParamName, p, a);
}

/// Every node that `bound` leaves spans something.
pub proof fn lemma_bound_firm(s: Seq<u8>, p: int)
    requires
        0 <= p <= s.len(),
    ensures
        firm(declarations::bound(s, p)),
{
    reveal(declarations::bound);
    lemma_trivia_nested(s, p);
    let a = trivia(s, p);
    if a.ok {
        lemma_byte_nested(s, a.end, LESS);
    }
    crate::nesting::forest::lemma_join_nested(s, p, a, byte(s, a.end, LESS));
    lemma_join_firm(a, byte(s, a.end, LESS));
    let b = join(a, byte(s, a.end, LESS));
    if b.ok {
        lemma_trivia_nested(s, b.end);
    }
    crate::nesting::forest::lemma_join_nested(s, p, b, trivia(s, b.end));
    lemma_join_firm(b, trivia(s, b.end));
    let c = join(b, trivia(s, b.end));
    if c.ok {
        crate::nesting::types::lemma_type_expr_nested(s, c.end);
        crate::firmness::types::lemma_type_expr_firm(s, c.end);
    }
    crate::nesting::forest::lemma_join_nested(s, p, c, types::type_expr(s, c.end));
    lemma_join_firm(c, types::type_expr(s, c.end));
    let d = join(c, types::type_expr(s, c.end));
}

/// Every node that `type_param` leaves spans something.
pub proof fn lemma_type_param_firm(s: Seq<u8>, p: int)
    requires
        0 <= p <= s.len(),
    ensures
        firm(declarations::type_param(s, p)),
{
    reveal(declarations::type_param);
    crate::nesting::declarations::lemma_modifiers_nested(s, p);
    lemma_opt_nested(s, p, declarations::modifiers(s, p));
    crate::firmness::declarations::lemma_modifiers_firm(s, p);
    let a = opt(p, declarations::modifiers(s, p));
    if a.ok {
        crate::nesting::declarations::lemma_type_param_name_nested(s, a.end);
        crate::firmness::declarations::lemma_type_param_name_firm(s, a.end);
    }
    crate::nesting::forest::lemma_join_nested(s, p, a, declarations::type_param_name(s, a.end));
    lemma_join_firm(a, declarations::type_param_name(s, a.end));
    let b = join(a, declarations::type_param_name(s, a.end));
    if b.ok {
        crate::nesting::declarations::lemma_bound_nested(s, b.end);
        lemma_opt_nested(s, b.end, declarations::bound(s, b.end));
        crate::firmness::declarations::lemma_bound_firm(s, b.end);
    }
    crate::nesting::forest::lemma_join_nested(s, p, b, opt(b.end, declarations::bound(s, b.end)));
    lemma_join_firm(b, opt(b.end, declarations::bound(s, b.end)));
    let c = join(b, opt(b.end, declarations::bound(s, b.end)));
    crate::progress::declarations::lemma_type_param_progress(s, p);
    lemma_node_firm(Rule::TypeParam, p, c);
}

/// Every node that `comma_type_param` leaves spans something.
pub proof fn lemma_comma_type_param_firm(s: Seq<u8>, p: int)
    requires
        0 <= p <= s.len(),
    ensures
        firm(declarations::comma_type_param(s, p)),
{
    reveal(declarations::comma_type_param);
    lemma_trivia_nested(s, p);
    let a = trivia(s, p);
    if a.ok {
        lemma_byte_nested(s, a.end, COMMA);
    }
    crate::nesting::forest::lemma_join_nested(s, p, a, byte(s, a.end, COMMA));
    lemma_join_firm(a, byte(s, a.end, COMMA));
    let b = join(a, byte(s, a.end, COMMA));
    if b.ok {
        lemma_trivia_nested(s, b.end);
    }
    crate::nesting::forest::lemma_join_nested(s, p, b, trivia(s, b.end));
    lemma_join_firm(b, trivia(s, b.end));
    let c = join(b, trivia(s, b.end));
    if c.ok {
        crate::nesting::declarations::lemma_type_param_nested(s, c.end);
        crate::firmness::declarations::lemma_type_param_firm(s, c.end);
    }
    crate::nesting::forest::lemma_join_nested(s, p, c, declarations::type_param(s, c.end));
    lemma_join_firm(c, declarations::type_param(s, c.end));
    let d = join(c, declarations::type_param(s, c.end));
}

/// Every node that `more_type_params` leaves spans something.
pub proof fn lemma_more_type_params_firm(s: Seq<u8>, p: int)
    requires
        0 <= p <= s.len(),
    ensures
        firm(declarations::more_type_params(s, p)),
    decreases s.len() - p,
{
    reveal_with_fuel(declarations::more_type_params, 1);
    let item = declarations::comma_type_param(s, p);
    crate::nesting::declarations::lemma_comma_type_param_nested(s, p);
    crate::firmness::declarations::lemma_comma_type_param_firm(s, p);
    if item.ok && p < item.end <= s.len() {
        lemma_more_type_params_firm(s, item.end);
        lemma_join_firm(item, declarations::more_type_params(s, item.end));
    }
}

/// Every node that `type_params` leaves spans something.
pub proof fn lemma_type_params_firm(s: Seq<u8>, p: int)
    requires
        0 <= p <= s.len(),
    ensures
        firm(declarations::type_params(s, p)),
{
    reveal(declarations::type_params);
    lemma_byte_nested(s, p, LEFT_BRACKET);
    let a = byte(s, p, LEFT_BRACKET);
    if a.ok {
        lemma_trivia_nested(s, a.end);
    }
    crate::nesting::forest::lemma_join_nested(s, p, a, trivia(s, a.end));
    lemma_join_firm(a, trivia(s, a.end));
    let b = join(a, trivia(s, a.end));
    if b.ok {
        crate::nesting::declarations::lemma_type_param_nested(s, b.end);
        crate::firmness::declarations::lemma_type_param_firm(s, b.end);
    }
    crate::nesting::forest::lemma_join_nested(s, p, b, declarations::type_param(s, b.end));
    lemma_join_firm(b, declarations::type_param(s, b.end));
    let c = join(b, declarations::type_param(s, b.end));
    if c.ok {
        crate::nesting::declarations::lemma_more_type_params_nested(s, c.end);
        crate::firmness::declarations::lemma_more_type_params_firm(s, c.end);
    }
    crate::nesting::forest::lemma_join_nested(s, p, c, declarations::more_type_params(s, c.end));
    lemma_join_firm(c, declarations::more_type_params(s, c.end));
    let d = join(c, declarations::more_type_params(s, c.end));
    if d.ok {
        lemma_trivia_nested(s, d.end);
    }
    crate::nesting::forest::lemma_join_nested(s, p, d, trivia(s, d.end));
    lemma_join_firm(d, trivia(s, d.end));
    let e = join(d, trivia(s, d.end));
    if e.ok {
        lemma_byte_nested(s, e.end, RIGHT_BRACKET);
    }
    crate::nesting::forest::lemma_join_nested(s, p, e, byte(s, e.end, RIGHT_BRACKET));
    lemma_join_firm(e, byte(s, e.end, RIGHT_BRACKET));
    let f = join(e, byte(s, e.end, RIGHT_BRACKET));
    crate::progress::declarations::lemma_type_params_progress(s, p);
    lemma_node_firm(Rule::TypeParams, p, f);
}

/// Every node that `spaced_type_params` leaves spans something.
pub proof fn lemma_spaced_type_params_firm(s: Seq<u8>, p: int)
    requires
        0 <= p <= s.len(),
    ensures
        firm(declarations::spaced_type_params(s, p)),
{
    reveal(declarations::spaced_type_params);
    lemma_trivia_nested(s, p);
    let a = trivia(s, p);
    if a.ok {
        crate::nesting::declarations::lemma_type_params_nested(s, a.end);
        crate::firmness::declarations::lemma_type_params_firm(s, a.end);
    }
    crate::nesting::forest::lemma_join_nested(s, p, a, declarations::type_params(s, a.end));
    lemma_join_firm(a, declarations::type_params(s, a.end));
    let b = join(a, declarations::type_params(s, a.end));
}

/// Every node that `super_class` leaves spans something.
pub proof fn lemma_super_class_firm(s: Seq<u8>, p: int)
    requires
        0 <= p <= s.len(),
    ensures
        firm(declarations::super_class(s, p)),
{
    reveal(declarations::super_class);
    lemma_byte_nested(s, p, LESS);
    let a = byte(s, p, LESS);
    if a.ok {
        lemma_trivia_nested(s, a.end);
    }
    crate::nesting::forest::lemma_join_nested(s, p, a, trivia(s, a.end));
    lemma_join_firm(a, trivia(s, a.end));
    let b = join(a, trivia(s, a.end));
    if b.ok {
        crate::nesting::types::lemma_type_class_instance_name_nested(s, b.end);
        crate::firmness::types::lemma_type_class_instance_name_firm(s, b.end);
    }
    crate::nesting::forest::lemma_join_nested(s, p, b, types::type_class_instance_name(s, b.end));
    lemma_join_firm(b, types::type_class_instance_name(s, b.end));
    let c = join(b, types::type_class_instance_name(s, b.end));
    crate::progress::declarations::lemma_super_class_progress(s, p);
    lemma_node_firm(Rule::SuperClass, p, c);
}

/// Every node that `spaced_super_class` leaves spans something.
pub proof fn lemma_spaced_super_class_firm(s: Seq<u8>, p: int)
    requires
        0 <= p <= s.len(),
    ensures
        firm(declarations::spaced_super_class(s, p)),
{
    reveal(declarations::spaced_super_class);
    lemma_trivia_nested(s, p);
    let a = trivia(s, p);
    if a.ok {
        crate::nesting::declarations::lemma_super_class_nested(s, a.end);
        crate::firmness::declarations::lemma_super_class_firm(s, a.end);
    }
    crate::nesting::forest::lemma_join_nested(s, p, a, declarations::super_class(s, a.end));
    lemma_join_firm(a, declarations::super_class(s, a.end));
    let b = join(a, declarations::super_class(s, a.end));
}

/// Every node that `self_types` leaves spans something.
pub proof fn lemma_self_types_firm(s: Seq<u8>, p: int)
    requires
        0 <= p <= s.len(),
    ensures
        firm(declarations::self_types(s, p)),
{
    reveal(declarations::self_types);
    lemma_byte_nested(s, p, COLON);
    let a = byte(s, p, COLON);
    if a.ok {
        lemma_trivia_nested(s, a.end);
    }
    crate::nesting::forest::lemma_join_nested(s, p, a, trivia(s, a.end));
    lemma_join_firm(a, trivia(s, a.end));
    let b = join(a, trivia(s, a.end));
    if b.ok {
        crate::nesting::types::lemma_type_list_nested(s, b.end);
        crate::firmness::types::lemma_type_list_firm(s, b.end);
    }
    crate::nesting::forest::lemma_join_nested(s, p, b, types::type_list(s, b.end));
    lemma_join_firm(b, types::type_list(s, b.end));
    let c = join(b, types::type_list(s, b.end));
    crate::progress::declarations::lemma_self_types_progress(s, p);
    lemma_node_firm(Rule::SelfTypes, p, c);
}

/// Every node that `spaced_self_types` leaves spans something.
pub proof fn lemma_spaced_self_types_firm(s: Seq<u8>, p: int)
    requires
        0 <= p <= s.len(),
    ensures
        firm(declarations::spaced_self_types(s, p)),
{
    reveal(declarations::spaced_self_types);
    lemma_trivia_nested(s, p);
    let a = trivia(s, p);
    if a.ok {
        crate::nesting::declarations::lemma_self_types_nested(s, a.end);
        crate::firmness::declarations::lemma_self_types_firm(s, a.end);
    }
    crate::nesting::forest::lemma_join_nested(s, p, a, declarations::self_types(s, a.end));
    lemma_join_firm(a, declarations::self_types(s, a.end));
    let b = join(a, declarations::self_types(s, a.end));
}

/// Every node that `spaced_member` leaves spans something.
pub proof fn lemma_spaced_member_firm(s: Seq<u8>, p: int)
    requires
        0 <= p <= s.len(),
    ensures
        firm(declarations::spaced_member(s, p)),
{
    reveal(declarations::spaced_member);
    lemma_trivia_nested(s, p);
    let a = trivia(s, p);
    if a.ok {
        crate::nesting::members::lemma_member_nested(s, a.end);
        crate::firmness::members::lemma_member_firm(s, a.end);
    }
    crate::nesting::forest::lemma_join_nested(s, p, a, members::member(s, a.end));
    lemma_join_firm(a, members::member(s, a.end));
    let b = join(a, members::member(s, a.end));
}

/// Every node that `members` leaves spans something.
pub proof fn lemma_members_firm(s: Seq<u8>, p: int)
    requires
        0 <= p <= s.len(),
    ensures
        firm(declarations::members(s, p)),
    decreases s.len() - p,
{
    reveal_with_fuel(declarations::members, 1);
    let item = declarations::spaced_member(s, p);
    crate::nesting::declarations::lemma_spaced_member_nested(s, p);
    crate::firmness::declarations::lemma_spaced_member_firm(s, p);
    if item.ok && p < item.end <= s.len() {
        lemma_members_firm(s, item.end);
        lemma_join_firm(item, declarations::members(s, item.end));
    }
}

/// Every node that `class_decl` leaves spans something.
pub proof fn lemma_class_decl_firm(s: Seq<u8>, p: int)
    requires
        0 <= p <= s.len(),
    ensures
        firm(declarations::class_decl(s, p)),
{
    reveal(declarations::class_decl);
    lemma_keyword_nested(s, p, "class".spec_bytes());
    let a = keyword(s, p, "class".spec_bytes());
    if a.ok {
        lemma_trivia_nested(s, a.end);
    }
    crate::nesting::forest::lemma_join_nested(s, p, a, trivia(s, a.end));
    lemma_join_firm(a, trivia(s, a.end));
    let b = join(a, trivia(s, a.end));
    if b.ok {
        crate::nesting::names::lemma_class_name_nested(s, b.end);
        crate::firmness::names::lemma_class_name_firm(s, b.end);
    }
    crate::nesting::forest::lemma_join_nested(s, p, b, names::class_name(s, b.end));
    lemma_join_firm(b, names::class_name(s, b.end));
    let c = join(b, names::class_name(s, b.end));
    if c.ok {
        crate::nesting::declarations::lemma_spaced_type_params_nested(s, c.end);
        lemma_opt_nested(s, c.end, declarations::spaced_type_params(s, c.end));
        crate::firmness::declarations::lemma_spaced_type_params_firm(s, c.end);
    }
    crate::nesting::forest::lemma_join_nested(
        s,
        p,
        c,
        opt(c.end, declarations::spaced_type_params(s, c.end)),
    );
    lemma_join_firm(c, opt(c.end, declarations::spaced_type_params(s, c.end)));
    let d = join(c, opt(c.end, declarations::spaced_type_params(s, c.end)));
    if d.ok {
        crate::nesting::declarations::lemma_spaced_super_class_nested(s, d.end);
        lemma_opt_nested(s, d.end, declarations::spaced_super_class(s, d.end));
        crate::firmness::declarations::lemma_spaced_super_class_firm(s, d.end);
    }
    crate::nesting::forest::lemma_join_nested(
        s,
        p,
        d,
        opt(d.end, declarations::spaced_super_class(s, d.end)),
    );
    lemma_join_firm(d, opt(d.end, declarations::spaced_super_class(s, d.end)));
    let e = join(d, opt(d.end, declarations::spaced_super_class(s, d.end)));
    if e.ok {
        crate::nesting::declarations::lemma_members_nested(s, e.end);
        crate::firmness::declarations::lemma_members_firm(s, e.end);
    }
    crate::nesting::forest::lemma_join_nested(s, p, e, declarations::members(s, e.end));
    lemma_join_firm(e, declarations::members(s, e.end));
    let f = join(e, declarations::members(s, e.end));
    if f.ok {
        lemma_trivia_nested(s, f.end);
    }
    crate::nesting::forest::lemma_join_nested(s, p, f, trivia(s, f.end));
    lemma_join_firm(f, trivia(s, f.end));
    let g = join(f, trivia(s, f.end));
    if g.ok {
        lemma_keyword_nested(s, g.end, "end".spec_bytes());
    }
    crate::nesting::forest::lemma_join_nested(s, p, g, keyword(s, g.end, "end".spec_bytes()));
    lemma_join_firm(g, keyword(s, g.end, "end".spec_bytes()));
    let h = join(g, keyword(s, g.end, "end".spec_bytes()));
    crate::progress::declarations::lemma_class_decl_progress(s, p);
    lemma_node_firm(Rule::ClassDecl, p, h);
}

/// Every node that `module_decl` leaves spans something.
pub proof fn lemma_module_decl_firm(s: Seq<u8>, p: int)
    requires
        0 <= p <= s.len(),
    ensures
        firm(declarations::module_decl(s, p)),
{
    reveal(declarations::module_decl);
    lemma_keyword_nested(s, p, "module".spec_bytes());
    let a = keyword(s, p, "module".spec_bytes());
    if a.ok {
        lemma_trivia_nested(s, a.end);
    }
    crate::nesting::forest::lemma_join_nested(s, p, a, trivia(s, a.end));
    lemma_join_firm(a, trivia(s, a.end));
    let b = join(a, trivia(s, a.end));
    if b.ok {
        crate::nesting::names::lemma_class_name_nested(s, b.end);
        crate::firmness::names::lemma_class_name_firm(s, b.end);
    }
    crate::nesting::forest::lemma_join_nested(s, p, b, names::class_name(s, b.end));
    lemma_join_firm(b, names::class_name(s, b.end));
    let c = join(b, names::class_name(s, b.end));
    if c.ok {
        crate::nesting::declarations::lemma_spaced_type_params_nested(s, c.end);
        lemma_opt_nested(s, c.end, declarations::spaced_type_params(s, c.end));
        crate::firmness::declarations::lemma_spaced_type_params_firm(s, c.end);
    }
    crate::nesting::forest::lemma_join_nested(
        s,
        p,
        c,
        opt(c.end, declarations::spaced_type_params(s, c.end)),
    );
    lemma_join_firm(c, opt(c.end, declarations::spaced_type_params(s, c.end)));
    let d = join(c, opt(c.end, declarations::spaced_type_params(s, c.end)));
    if d.ok {
        crate::nesting::declarations::lemma_spaced_self_types_nested(s, d.end);
        lemma_opt_nested(s, d.end, declarations::spaced_self_types(s, d.end));
        crate::firmness::declarations::lemma_spaced_self_types_firm(s, d.end);
    }
    crate::nesting::forest::lemma_join_nested(
        s,
        p,
        d,
        opt(d.end, declarations::spaced_self_types(s, d.end)),
    );
    lemma_join_firm(d, opt(d.end, declarations::spaced_self_types(s, d.end)));
    let e = join(d, opt(d.end, declarations::spaced_self_types(s, d.end)));
    if e.ok {
        crate::nesting::declarations::lemma_members_nested(s, e.end);
        crate::firmness::declarations::lemma_members_firm(s, e.end);
    }
    crate::nesting::forest::lemma_join_nested(s, p, e, declarations::members(s, e.end));
    lemma_join_firm(e, declarations::members(s, e.end));
    let f = join(e, declarations::members(s, e.end));
    if f.ok {
        lemma_trivia_nested(s, f.end);
    }
    crate::nesting::forest::lemma_join_nested(s, p, f, trivia(s, f.end));
    lemma_join_firm(f, trivia(s, f.end));
    let g = join(f, trivia(s, f.end));
    if g.ok {
        lemma_keyword_nested(s, g.end, "end".spec_bytes());
    }
    crate::nesting::forest::lemma_join_nested(s, p, g, keyword(s, g.end, "end".spec_bytes()));
    lemma_join_firm(g, keyword(s, g.end, "end".spec_bytes()));
    let h = join(g, keyword(s, g.end, "end".spec_bytes()));
    crate::progress::declarations::lemma_module_decl_progress(s, p);
    lemma_node_firm(Rule::ModuleDecl, p, h);
}

/// Every node that `const_decl` leaves spans something.
pub proof fn lemma_const_decl_firm(s: Seq<u8>, p: int)
    requires
        0 <= p <= s.len(),
    ensures
        firm(declarations::const_decl(s, p)),
{
    reveal(declarations::const_decl);
    crate::nesting::names::lemma_const_name_nested(s, p);
    crate::firmness::names::lemma_const_name_firm(s, p);
    let a = names::const_name(s, p);
    if a.ok {
        lemma_trivia_nested(s, a.end);
    }
    crate::nesting::forest::lemma_join_nested(s, p, a, trivia(s, a.end));
    lemma_join_firm(a, trivia(s, a.end));
    let b = join(a, trivia(s, a.end));
    if b.ok {
        lemma_byte_nested(s, b.end, COLON);
    }
    crate::nesting::forest::lemma_join_nested(s, p, b, byte(s, b.end, COLON));
    lemma_join_firm(b, byte(s, b.end, COLON));
    let c = join(b, byte(s, b.end, COLON));
    if c.ok {
        lemma_trivia_nested(s, c.end);
    }
    crate::nesting::forest::lemma_join_nested(s, p, c, trivia(s, c.end));
    lemma_join_firm(c, trivia(s, c.end));
    let d = join(c, trivia(s, c.end));
    if d.ok {
        crate::nesting::types::lemma_type_expr_nested(s, d.end);
        crate::firmness::types::lemma_type_expr_firm(s, d.end);
    }
    crate::nesting::forest::lemma_join_nested(s, p, d, types::type_expr(s, d.end));
    lemma_join_firm(d, types::type_expr(s, d.end));
    let e = join(d, types::type_expr(s, d.end));
    crate::progress::declarations::lemma_const_decl_progress(s, p);
    lemma_node_firm(Rule::ConstDecl, p, e);
}

} // verus!
