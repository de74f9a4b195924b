use vstd::prelude::*;
use vstd::string::StringSliceAdditionalSpecFns;
use crate::grammar::lexical::{
    byte, keyword, trivia, COLON, COMMA, LEFT_BRACKET, LESS, RIGHT_BRACKET,
};
use crate::grammar::step::{either, join, opt, quiet};
use crate::grammar::{declarations, members, names, types};
use crate::nesting::forest::{lemma_byte_nested, lemma_keyword_nested, lemma_trivia_nested};
use crate::rule::Rule;
use crate::shifting::moved::{
    lemma_byte_moved, lemma_keyword_moved, lemma_moved_either, lemma_moved_join, lemma_moved_node,
    lemma_moved_opt, lemma_moved_quiet, lemma_same_from_later, lemma_trivia_moved, moved,
    same_from,
};

verus! {

/// `unchecked` does the same where the same text stands at another offset.
pub proof fn lemma_unchecked_moved(s: Seq<u8>, p: int, t: Seq<u8>, k: int)
    requires
        same_from(s, p, t, k),
    ensures
        declarations::unchecked(t, p + k) == moved(declarations::unchecked(s, p), k),
{
    reveal(declarations::unchecked);
    lemma_keyword_nested(s, p, "unchecked".spec_bytes());
    lemma_keyword_moved(s, p, t, k, "unchecked".spec_bytes());
    let a = keyword(s, p, "unchecked".spec_bytes());
    lemma_moved_node(Rule::Unchecked, p, a, k);
}

/// `variance_out` does the same where the same text stands at another offset.
pub proof fn lemma_variance_out_moved(s: Seq<u8>, p: int, t: Seq<u8>, k: int)
    requires
        same_from(s, p, t, k),
    ensures
        declarations::variance_out(t, p + k) == moved(declarations::variance_out(s, p), k),
{
    reveal(declarations::variance_out);
    lemma_keyword_nested(s, p, "out".spec_bytes());
    lemma_keyword_moved(s, p, t, k, "out".spec_bytes());
    let a = keyword(s, p, "out".spec_bytes());
    lemma_moved_node(Rule::VarianceOut, p, a, k);
}

/// `variance_in` does the same where the same text stands at another offset.
pub proof fn lemma_variance_in_moved(s: Seq<u8>, p: int, t: Seq<u8>, k: int)
    requires
        same_from(s, p, t, k),
    ensures
        declarations::variance_in(t, p + k) == moved(declarations::variance_in(s, p), k),
{
    reveal(declarations::variance_in);
    lemma_keyword_nested(s, p, "in".spec_bytes());
    lemma_keyword_moved(s, p, t, k, "in".spec_bytes());
    let a = keyword(s, p, "in".spec_bytes());
    lemma_moved_node(Rule::VarianceIn, p, a, k);
}

/// `spaced_unchecked` does the same where the same text stands at another offset.
pub proof fn lemma_spaced_unchecked_moved(s: Seq<u8>, p: int, t: Seq<u8>, k: int)
    requires
        same_from(s, p, t, k),
    ensures
        declarations::spaced_unchecked(t, p + k) == moved(declarations::spaced_unchecked(s, p), k),
{
    reveal(declarations::spaced_unchecked);
    crate::nesting::declarations::lemma_unchecked_nested(s, p);
    crate::shifting::declarations::lemma_unchecked_moved(s, p, t, k);
    let a = declarations::unchecked(s, p);
    if a.ok {
        lemma_same_from_later(s, p, t, k, a.end);
        lemma_trivia_nested(s, a.end);
        lemma_trivia_moved(s, a.end, t, k);
    }
    crate::nesting::forest::lemma_join_nested(s, p, a, trivia(s, a.end));
    lemma_moved_join(a, trivia(s, a.end), k);
    let b = join(a, trivia(s, a.end));
    lemma_moved_quiet(p, b, k);
}

/// `spaced_variance` does the same where the same text stands at another offset.
pub proof fn lemma_spaced_variance_moved(s: Seq<u8>, p: int, t: Seq<u8>, k: int)
    requires
        same_from(s, p, t, k),
    ensures
        declarations::spaced_variance(t, p + k) == moved(declarations::spaced_variance(s, p), k),
{
    reveal(declarations::spaced_variance);
    crate::nesting::declarations::lemma_variance_out_nested(s, p);
    crate::shifting::declarations::lemma_variance_out_moved(s, p, t, k);
    crate::nesting::declarations::lemma_variance_in_nested(s, p);
    crate::shifting::declarations::lemma_variance_in_moved(s, p, t, k);
    lemma_moved_either(declarations::variance_out(s, p), declarations::variance_in(s, p), k);
    let a = either(declarations::variance_out(s, p), declarations::variance_in(s, p));
    if a.ok {
        lemma_same_from_later(s, p, t, k, a.end);
        lemma_trivia_nested(s, a.end);
        lemma_trivia_moved(s, a.end, t, k);
    }
    crate::nesting::forest::lemma_join_nested(s, p, a, trivia(s, a.end));
    lemma_moved_join(a, trivia(s, a.end), k);
    let b = join(a, trivia(s, a.end));
    lemma_moved_quiet(p, b, k);
}

/// `modifiers` does the same where the same text stands at another offset.
pub proof fn lemma_modifiers_moved(s: Seq<u8>, p: int, t: Seq<u8>, k: int)
    requires
        same_from(s, p, t, k),
    ensures
        declarations::modifiers(t, p + k) == moved(declarations::modifiers(s, p), k),
{
    reveal(declarations::modifiers);
    let a = declarations::spaced_unchecked(s, p);
    let b = declarations::spaced_variance(s, p);
    crate::nesting::declarations::lemma_spaced_unchecked_nested(s, p);
    crate::nesting::declarations::lemma_spaced_variance_nested(s, p);
    lemma_spaced_unchecked_moved(s, p, t, k);
    lemma_spaced_variance_moved(s, p, t, k);
    if a.ok {
        lemma_same_from_later(s, p, t, k, a.end);
        lemma_spaced_variance_moved(s, a.end, t, k);
    }
    lemma_moved_opt(a.end, declarations::spaced_variance(s, a.end), k);
    lemma_moved_join(a, opt(a.end, declarations::spaced_variance(s, a.end)), k);
    lemma_moved_quiet(p, join(a, opt(a.end, declarations::spaced_variance(s, a.end))), k);
    if b.ok {
        lemma_same_from_later(s, p, t, k, b.end);
        lemma_spaced_unchecked_moved(s, b.end, t, k);
    }
    lemma_moved_opt(b.end, declarations::spaced_unchecked(s, b.end), k);
    lemma_moved_join(b, opt(b.end, declarations::spaced_unchecked(s, b.end)), k);
    lemma_moved_quiet(p, join(b, opt(b.end, declarations::spaced_unchecked(s, b.end))), k);
    lemma_moved_either(
        quiet(p, join(a, opt(a.end, declarations::spaced_variance(s, a.end)))),
        quiet(p, join(b, opt(b.end, declarations::spaced_unchecked(s, b.end)))),
        k,
    );
}

/// `type_param_name` does the same where the same text stands at another offset.
pub proof fn lemma_type_param_name_moved(s: Seq<u8>, p: int, t: Seq<u8>, k: int)
    requires
        same_from(s, p, t, k),
    ensures
        declarations::type_param_name(t, p + k) == moved(declarations::type_param_name(s, p), k),
{
    reveal(declarations::type_param_name);
    crate::nesting::names::lemma_upper_ident_nested(s, p);
    crate::shifting::names::lemma_upper_ident_moved(s, p, t, k);
    let a = names::upper_ident(s, p);
    lemma_moved_node(Rule::TypeParamName, p, a, k);
}

/// `bound` does the same where the same text stands at another offset.
pub proof fn lemma_bound_moved(s: Seq<u8>, p: int, t: Seq<u8>, k: int)
    requires
        same_from(s, p, t, k),
    ensures
        declarations::bound(t, p + k) == moved(declarations::bound(s, p), k),
{
    reveal(declarations::bound);
    lemma_trivia_nested(s, p);
    lemma_trivia_moved(s, p, t, k);
    let a = trivia(s, p);
    if a.ok {
        lemma_same_from_later(s, p, t, k, a.end);
        lemma_byte_nested(s, a.end, LESS);
        lemma_byte_moved(s, a.end, t, k, LESS);
    }
    crate::nesting::forest::lemma_join_nested(s, p, a, byte(s, a.end, LESS));
    lemma_moved_join(a, byte(s, a.end, LESS), k);
    let b = join(a, byte(s, a.end, LESS));
    if b.ok {
        lemma_same_from_later(s, p, t, k, b.end);
        lemma_trivia_nested(s, b.end);
        lemma_trivia_moved(s, b.end, t, k);
    }
    crate::nesting::forest::lemma_join_nested(s, p, b, trivia(s, b.end));
    lemma_moved_join(b, trivia(s, b.end), k);
    let c = join(b, trivia(s, b.end));
    if c.ok {
        lemma_same_from_later(s, p, t, k, c.end);
        crate::nesting::types::lemma_type_expr_nested(s, c.end);
        crate::shifting::types::lemma_type_expr_moved(s, c.end, t, k);
    }
    crate::nesting::forest::lemma_join_nested(s, p, c, types::type_expr(s, c.end));
    lemma_moved_join(c, types::type_expr(s, c.end), k);
    let d = join(c, types::type_expr(s, c.end));
    lemma_moved_quiet(p, d, k);
}

/// `type_param` does the same where the same text stands at another offset.
pub proof fn lemma_type_param_moved(s: Seq<u8>, p: int, t: Seq<u8>, k: int)
    requires
        same_from(s, p, t, k),
    ensures
        declarations::type_param(t, p + k) == moved(declarations::type_param(s, p), k),
{
    reveal(declarations::type_param);
    crate::nesting::declarations::lemma_modifiers_nested(s, p);
    crate::shifting::declarations::lemma_modifiers_moved(s, p, t, k);
    lemma_moved_opt(p, declarations::modifiers(s, p), k);
    let a = opt(p, declarations::modifiers(s, p));
    if a.ok {
        lemma_same_from_later(s, p, t, k, a.end);
        crate::nesting::declarations::lemma_type_param_name_nested(s, a.end);
        crate::shifting::declarations::lemma_type_param_name_moved(s, a.end, t, k);
    }
    crate::nesting::forest::lemma_join_nested(s, p, a, declarations::type_param_name(s, a.end));
    lemma_moved_join(a, declarations::type_param_name(s, a.end), k);
    let b = join(a, declarations::type_param_name(s, a.end));
    if b.ok {
        lemma_same_from_later(s, p, t, k, b.end);
        crate::nesting::declarations::lemma_bound_nested(s, b.end);
        crate::shifting::declarations::lemma_bound_moved(s, b.end, t, k);
        lemma_moved_opt(b.end, declarations::bound(s, b.end), k);
    }
    crate::nesting::forest::lemma_join_nested(s, p, b, opt(b.end, declarations::bound(s, b.end)));
    lemma_moved_join(b, opt(b.end, declarations::bound(s, b.end)), k);
    let c = join(b, opt(b.end, declarations::bound(s, b.end)));
    lemma_moved_node(Rule::TypeParam, p, c, k);
}

/// `comma_type_param` does the same where the same text stands at another offset.
pub proof fn lemma_comma_type_param_moved(s: Seq<u8>, p: int, t: Seq<u8>, k: int)
    requires
        same_from(s, p, t, k),
    ensures
        declarations::comma_type_param(t, p + k) == moved(declarations::comma_type_param(s, p), k),
{
    reveal(declarations::comma_type_param);
    lemma_trivia_nested(s, p);
    lemma_trivia_moved(s, p, t, k);
    let a = trivia(s, p);
    if a.ok {
        lemma_same_from_later(s, p, t, k, a.end);
        lemma_byte_nested(s, a.end, COMMA);
        lemma_byte_moved(s, a.end, t, k, COMMA);
    }
    crate::nesting::forest::lemma_join_nested(s, p, a, byte(s, a.end, COMMA));
    lemma_moved_join(a, byte(s, a.end, COMMA), k);
    let b = join(a, byte(s, a.end, COMMA));
    if b.ok {
        lemma_same_from_later(s, p, t, k, b.end);
        lemma_trivia_nested(s, b.end);
        lemma_trivia_moved(s, b.end, t, k);
    }
    crate::nesting::forest::lemma_join_nested(s, p, b, trivia(s, b.end));
    lemma_moved_join(b, trivia(s, b.end), k);
    let c = join(b, trivia(s, b.end));
    if c.ok {
        lemma_same_from_later(s, p, t, k, c.end);
        crate::nesting::declarations::lemma_type_param_nested(s, c.end);
        crate::shifting::declarations::lemma_type_param_moved(s, c.end, t, k);
    }
    crate::nesting::forest::lemma_join_nested(s, p, c, declarations::type_param(s, c.end));
    lemma_moved_join(c, declarations::type_param(s, c.end), k);
    let d = join(c, declarations::type_param(s, c.end));
    lemma_moved_quiet(p, d, k);
}

/// `more_type_params` does the same where the same text stands at another offset.
pub proof fn lemma_more_type_params_moved(s: Seq<u8>, p: int, t: Seq<u8>, k: int)
    requires
        same_from(s, p, t, k),
    ensures
        declarations::more_type_params(t, p + k) == moved(declarations::more_type_params(s, p), k),
    decreases s.len() - p,
{
    reveal_with_fuel(declarations::more_type_params, 1);
    let item = declarations::comma_type_param(s, p);
    crate::nesting::declarations::lemma_comma_type_param_nested(s, p);
    crate::shifting::declarations::lemma_comma_type_param_moved(s, p, t, k);
    if item.ok && p < item.end <= s.len() {
        lemma_same_from_later(s, p, t, k, item.end);
        lemma_more_type_params_moved(s, item.end, t, k);
        lemma_moved_join(item, declarations::more_type_params(s, item.end), k);
    } else {
        lemma_moved_opt(p, item, k);
    }
}

/// `type_params` does the same where the same text stands at another offset.
pub proof fn lemma_type_params_moved(s: Seq<u8>, p: int, t: Seq<u8>, k: int)
    requires
        same_from(s, p, t, k),
    ensures
        declarations::type_params(t, p + k) == moved(declarations::type_params(s, p), k),
{
    reveal(declarations::type_params);
    lemma_byte_nested(s, p, LEFT_BRACKET);
    lemma_byte_moved(s, p, t, k, LEFT_BRACKET);
    let a = byte(s, p, LEFT_BRACKET);
    if a.ok {
        lemma_same_from_later(s, p, t, k, a.end);
        lemma_trivia_nested(s, a.end);
        lemma_trivia_moved(s, a.end, t, k);
    }
    crate::nesting::forest::lemma_join_nested(s, p, a, trivia(s, a.end));
    lemma_moved_join(a, trivia(s, a.end), k);
    let b = join(a, trivia(s, a.end));
    if b.ok {
        lemma_same_from_later(s, p, t, k, b.end);
        crate::nesting::declarations::lemma_type_param_nested(s, b.end);
        crate::shifting::declarations::lemma_type_param_moved(s, b.end, t, k);
    }
    crate::nesting::forest::lemma_join_nested(s, p, b, declarations::type_param(s, b.end));
    lemma_moved_join(b, declarations::type_param(s, b.end), k);
    let c = join(b, declarations::type_param(s, b.end));
    if c.ok {
        lemma_same_from_later(s, p, t, k, c.end);
        crate::nesting::declarations::lemma_more_type_params_nested(s, c.end);
        crate::shifting::declarations::lemma_more_type_params_moved(s, c.end, t, k);
    }
    crate::nesting::forest::lemma_join_nested(s, p, c, declarations::more_type_params(s, c.end));
    lemma_moved_join(c, declarations::more_type_params(s, c.end), k);
    let d = join(c, declarations::more_type_params(s, c.end));
    if d.ok {
        lemma_same_from_later(s, p, t, k, d.end);
        lemma_trivia_nested(s, d.end);
        lemma_trivia_moved(s, d.end, t, k);
    }
    crate::nesting::forest::lemma_join_nested(s, p, d, trivia(s, d.end));
    lemma_moved_join(d, trivia(s, d.end), k);
    let e = join(d, trivia(s, d.end));
    if e.ok {
        lemma_same_from_later(s, p, t, k, e.end);
        lemma_byte_nested(s, e.end, RIGHT_BRACKET);
        lemma_byte_moved(s, e.end, t, k, RIGHT_BRACKET);
    }
    crate::nesting::forest::lemma_join_nested(s, p, e, byte(s, e.end, RIGHT_BRACKET));
    lemma_moved_join(e, byte(s, e.end, RIGHT_BRACKET), k);
    let f = join(e, byte(s, e.end, RIGHT_BRACKET));
    lemma_moved_node(Rule::TypeParams, p, f, k);
}

/// `spaced_type_params` does the same where the same text stands at another offset.
pub proof fn lemma_spaced_type_params_moved(s: Seq<u8>, p: int, t: Seq<u8>, k: int)
    requires
        same_from(s, p, t, k),
    ensures
        declarations::spaced_type_params(t, p + k) == moved(declarations::spaced_type_params(s, p), k),
{
    reveal(declarations::spaced_type_params);
    lemma_trivia_nested(s, p);
    lemma_trivia_moved(s, p, t, k);
    let a = trivia(s, p);
    if a.ok {
        lemma_same_from_later(s, p, t, k, a.end);
        crate::nesting::declarations::lemma_type_params_nested(s, a.end);
        crate::shifting::declarations::lemma_type_params_moved(s, a.end, t, k);
    }
    crate::nesting::forest::lemma_join_nested(s, p, a, declarations::type_params(s, a.end));
    lemma_moved_join(a, declarations::type_params(s, a.end), k);
    let b = join(a, declarations::type_params(s, a.end));
    lemma_moved_quiet(p, b, k);
}

/// `super_class` does the same where the same text stands at another offset.
pub proof fn lemma_super_class_moved(s: Seq<u8>, p: int, t: Seq<u8>, k: int)
    requires
        same_from(s, p, t, k),
    ensures
        declarations::super_class(t, p + k) == moved(declarations::super_class(s, p), k),
{
    reveal(declarations::super_class);
    lemma_byte_nested(s, p, LESS);
    lemma_byte_moved(s, p, t, k, LESS);
    let a = byte(s, p, LESS);
    if a.ok {
        lemma_same_from_later(s, p, t, k, a.end);
        lemma_trivia_nested(s, a.end);
        lemma_trivia_moved(s, a.end, t, k);
    }
    crate::nesting::forest::lemma_join_nested(s, p, a, trivia(s, a.end));
    lemma_moved_join(a, trivia(s, a.end), k);
    let b = join(a, trivia(s, a.end));
    if b.ok {
        lemma_same_from_later(s, p, t, k, b.end);
        crate::nesting::types::lemma_type_class_instance_name_nested(s, b.end);
        crate::shifting::types::lemma_type_class_instance_name_moved(s, b.end, t, k);
    }
    crate::nesting::forest::lemma_join_nested(s, p, b, types::type_class_instance_name(s, b.end));
    lemma_moved_join(b, types::type_class_instance_name(s, b.end), k);
    let c = join(b, types::type_class_instance_name(s, b.end));
    lemma_moved_node(Rule::SuperClass, p, c, k);
}

/// `spaced_super_class` does the same where the same text stands at another offset.
pub proof fn lemma_spaced_super_class_moved(s: Seq<u8>, p: int, t: Seq<u8>, k: int)
    requires
        same_from(s, p, t, k),
    ensures
        declarations::spaced_super_class(t, p + k) == moved(declarations::spaced_super_class(s, p), k),
{
    reveal(declarations::spaced_super_class);
    lemma_trivia_nested(s, p);
    lemma_trivia_moved(s, p, t, k);
    let a = trivia(s, p);
    if a.ok {
        lemma_same_from_later(s, p, t, k, a.end);
        crate::nesting::declarations::lemma_super_class_nested(s, a.end);
        crate::shifting::declarations::lemma_super_class_moved(s, a.end, t, k);
    }
    crate::nesting::forest::lemma_join_nested(s, p, a, declarations::super_class(s, a.end));
    lemma_moved_join(a, declarations::super_class(s, a.end), k);
    let b = join(a, declarations::super_class(s, a.end));
    lemma_moved_quiet(p, b, k);
}

/// `self_types` does the same where the same text stands at another offset.
pub proof fn lemma_self_types_moved(s: Seq<u8>, p: int, t: Seq<u8>, k: int)
    requires
        same_from(s, p, t, k),
    ensures
        declarations::self_types(t, p + k) == moved(declarations::self_types(s, p), k),
{
    reveal(declarations::self_types);
    lemma_byte_nested(s, p, COLON);
    lemma_byte_moved(s, p, t, k, COLON);
    let a = byte(s, p, COLON);
    if a.ok {
        lemma_same_from_later(s, p, t, k, a.end);
        lemma_trivia_nested(s, a.end);
        lemma_trivia_moved(s, a.end, t, k);
    }
    crate::nesting::forest::lemma_join_nested(s, p, a, trivia(s, a.end));
    lemma_moved_join(a, trivia(s, a.end), k);
    let b = join(a, trivia(s, a.end));
    if b.ok {
        lemma_same_from_later(s, p, t, k, b.end);
        crate::nesting::types::lemma_type_list_nested(s, b.end);
        crate::shifting::types::lemma_type_list_moved(s, b.end, t, k);
    }
    crate::nesting::forest::lemma_join_nested(s, p, b, types::type_list(s, b.end));
    lemma_moved_join(b, types::type_list(s, b.end), k);
    let c = join(b, types::type_list(s, b.end));
    lemma_moved_node(Rule::SelfTypes, p, c, k);
}

/// `spaced_self_types` does the same where the same text stands at another offset.
pub proof fn lemma_spaced_self_types_moved(s: Seq<u8>, p: int, t: Seq<u8>, k: int)
    requires
        same_from(s, p, t, k),
    ensures
        declarations::spaced_self_types(t, p + k) == moved(declarations::spaced_self_types(s, p), k),
{
    reveal(declarations::spaced_self_types);
    lemma_trivia_nested(s, p);
    lemma_trivia_moved(s, p, t, k);
    let a = trivia(s, p);
    if a.ok {
        lemma_same_from_later(s, p, t, k, a.end);
        crate::nesting::declarations::lemma_self_types_nested(s, a.end);
        crate::shifting::declarations::lemma_self_types_moved(s, a.end, t, k);
    }
    crate::nesting::forest::lemma_join_nested(s, p, a, declarations::self_types(s, a.end));
    lemma_moved_join(a, declarations::self_types(s, a.end), k);
    let b = join(a, declarations::self_types(s, a.end));
    lemma_moved_quiet(p, b, k);
}

/// `spaced_member` does the same where the same text stands at another offset.
pub proof fn lemma_spaced_member_moved(s: Seq<u8>, p: int, t: Seq<u8>, k: int)
    requires
        same_from(s, p, t, k),
    ensures
        declarations::spaced_member(t, p + k) == moved(declarations::spaced_member(s, p), k),
{
    reveal(declarations::spaced_member);
    lemma_trivia_nested(s, p);
    lemma_trivia_moved(s, p, t, k);
    let a = trivia(s, p);
    if a.ok {
        lemma_same_from_later(s, p, t, k, a.end);
        crate::nesting::members::lemma_member_nested(s, a.end);
        crate::shifting::members::lemma_member_moved(s, a.end, t, k);
    }
    crate::nesting::forest::lemma_join_nested(s, p, a, members::member(s, a.end));
    lemma_moved_join(a, members::member(s, a.end), k);
    let b = join(a, members::member(s, a.end));
    lemma_moved_quiet(p, b, k);
}

/// `members` does the same where the same text stands at another offset.
pub proof fn lemma_members_moved(s: Seq<u8>, p: int, t: Seq<u8>, k: int)
    requires
        same_from(s, p, t, k),
    ensures
        declarations::members(t, p + k) == moved(declarations::members(s, p), k),
    decreases s.len() - p,
{
    reveal_with_fuel(declarations::members, 1);
    let item = declarations::spaced_member(s, p);
    crate::nesting::declarations::lemma_spaced_member_nested(s, p);
    crate::shifting::declarations::lemma_spaced_member_moved(s, p, t, k);
    if item.ok && p < item.end <= s.len() {
        lemma_same_from_later(s, p, t, k, item.end);
        lemma_members_moved(s, item.end, t, k);
        lemma_moved_join(item, declarations::members(s, item.end), k);
    } else {
        lemma_moved_opt(p, item, k);
    }
}

/// `class_decl` does the same where the same text stands at another offset.
pub proof fn lemma_class_decl_moved(s: Seq<u8>, p: int, t: Seq<u8>, k: int)
    requires
        same_from(s, p, t, k),
    ensures
        declarations::class_decl(t, p + k) == moved(declarations::class_decl(s, p), k),
{
    reveal(declarations::class_decl);
    lemma_keyword_nested(s, p, "class".spec_bytes());
    lemma_keyword_moved(s, p, t, k, "class".spec_bytes());
    let a = keyword(s, p, "class".spec_bytes());
    if a.ok {
        lemma_same_from_later(s, p, t, k, a.end);
        lemma_trivia_nested(s, a.end);
        lemma_trivia_moved(s, a.end, t, k);
    }
    crate::nesting::forest::lemma_join_nested(s, p, a, trivia(s, a.end));
    lemma_moved_join(a, trivia(s, a.end), k);
    let b = join(a, trivia(s, a.end));
    if b.ok {
        lemma_same_from_later(s, p, t, k, b.end);
        crate::nesting::names::lemma_class_name_nested(s, b.end);
        crate::shifting::names::lemma_class_name_moved(s, b.end, t, k);
    }
    crate::nesting::forest::lemma_join_nested(s, p, b, names::class_name(s, b.end));
    lemma_moved_join(b, names::class_name(s, b.end), k);
    let c = join(b, names::class_name(s, b.end));
    if c.ok {
        lemma_same_from_later(s, p, t, k, c.end);
        crate::nesting::declarations::lemma_spaced_type_params_nested(s, c.end);
        crate::shifting::declarations::lemma_spaced_type_params_moved(s, c.end, t, k);
        lemma_moved_opt(c.end, declarations::spaced_type_params(s, c.end), k);
    }
    crate::nesting::forest::lemma_join_nested(
        s,
        p,
        c,
        opt(c.end, declarations::spaced_type_params(s, c.end)),
    );
    lemma_moved_join(c, opt(c.end, declarations::spaced_type_params(s, c.end)), k);
    let d = join(c, opt(c.end, declarations::spaced_type_params(s, c.end)));
    if d.ok {
        lemma_same_from_later(s, p, t, k, d.end);
        crate::nesting::declarations::lemma_spaced_super_class_nested(s, d.end);
        crate::shifting::declarations::lemma_spaced_super_class_moved(s, d.end, t, k);
        lemma_moved_opt(d.end, declarations::spaced_super_class(s, d.end), k);
    }
    crate::nesting::forest::lemma_join_nested(
        s,
        p,
        d,
        opt(d.end, declarations::spaced_super_class(s, d.end)),
    );
    lemma_moved_join(d, opt(d.end, declarations::spaced_super_class(s, d.end)), k);
    let e = join(d, opt(d.end, declarations::spaced_super_class(s, d.end)));
    if e.ok {
        lemma_same_from_later(s, p, t, k, e.end);
        crate::nesting::declarations::lemma_members_nested(s, e.end);
        crate::shifting::declarations::lemma_members_moved(s, e.end, t, k);
    }
    crate::nesting::forest::lemma_join_nested(s, p, e, declarations::members(s, e.end));
    lemma_moved_join(e, declarations::members(s, e.end), k);
    let f = join(e, declarations::members(s, e.end));
    if f.ok {
        lemma_same_from_later(s, p, t, k, f.end);
        lemma_trivia_nested(s, f.end);
        lemma_trivia_moved(s, f.end, t, k);
    }
    crate::nesting::forest::lemma_join_nested(s, p, f, trivia(s, f.end));
    lemma_moved_join(f, trivia(s, f.end), k);
    let g = join(f, trivia(s, f.end));
    if g.ok {
        lemma_same_from_later(s, p, t, k, g.end);
        lemma_keyword_nested(s, g.end, "end".spec_bytes());
        lemma_keyword_moved(s, g.end, t, k, "end".spec_bytes());
    }
    crate::nesting::forest::lemma_join_nested(s, p, g, keyword(s, g.end, "end".spec_bytes()));
    lemma_moved_join(g, keyword(s, g.end, "end".spec_bytes()), k);
    let h = join(g, keyword(s, g.end, "end".spec_bytes()));
    lemma_moved_node(Rule::ClassDecl, p, h, k);
}

/// `module_decl` does the same where the same text stands at another offset.
pub proof fn lemma_module_decl_moved(s: Seq<u8>, p: int, t: Seq<u8>, k: int)
    requires
        same_from(s, p, t, k),
    ensures
        declarations::module_decl(t, p + k) == moved(declarations::module_decl(s, p), k),
{
    reveal(declarations::module_decl);
    lemma_keyword_nested(s, p, "module".spec_bytes());
    lemma_keyword_moved(s, p, t, k, "module".spec_bytes());
    let a = keyword(s, p, "module".spec_bytes());
    if a.ok {
        lemma_same_from_later(s, p, t, k, a.end);
        lemma_trivia_nested(s, a.end);
        lemma_trivia_moved(s, a.end, t, k);
    }
    crate::nesting::forest::lemma_join_nested(s, p, a, trivia(s, a.end));
    lemma_moved_join(a, trivia(s, a.end), k);
    let b = join(a, trivia(s, a.end));
    if b.ok {
        lemma_same_from_later(s, p, t, k, b.end);
        crate::nesting::names::lemma_class_name_nested(s, b.end);
        crate::shifting::names::lemma_class_name_moved(s, b.end, t, k);
    }
    crate::nesting::forest::lemma_join_nested(s, p, b, names::class_name(s, b.end));
    lemma_moved_join(b, names::class_name(s, b.end), k);
    let c = join(b, names::class_name(s, b.end));
    if c.ok {
        lemma_same_from_later(s, p, t, k, c.end);
        crate::nesting::declarations::lemma_spaced_type_params_nested(s, c.end);
        crate::shifting::declarations::lemma_spaced_type_params_moved(s, c.end, t, k);
        lemma_moved_opt(c.end, declarations::spaced_type_params(s, c.end), k);
    }
    crate::nesting::forest::lemma_join_nested(
        s,
        p,
        c,
        opt(c.end, declarations::spaced_type_params(s, c.end)),
    );
    lemma_moved_join(c, opt(c.end, declarations::spaced_type_params(s, c.end)), k);
    let d = join(c, opt(c.end, declarations::spaced_type_params(s, c.end)));
    if d.ok {
        lemma_same_from_later(s, p, t, k, d.end);
        crate::nesting::declarations::lemma_spaced_self_types_nested(s, d.end);
        crate::shifting::declarations::lemma_spaced_self_types_moved(s, d.end, t, k);
        lemma_moved_opt(d.end, declarations::spaced_self_types(s, d.end), k);
    }
    crate::nesting::forest::lemma_join_nested(
        s,
        p,
        d,
        opt(d.end, declarations::spaced_self_types(s, d.end)),
    );
    lemma_moved_join(d, opt(d.end, declarations::spaced_self_types(s, d.end)), k);
    let e = join(d, opt(d.end, declarations::spaced_self_types(s, d.end)));
    if e.ok {
        lemma_same_from_later(s, p, t, k, e.end);
        crate::nesting::declarations::lemma_members_nested(s, e.end);
        crate::shifting::declarations::lemma_members_moved(s, e.end, t, k);
    }
    crate::nesting::forest::lemma_join_nested(s, p, e, declarations::members(s, e.end));
    lemma_moved_join(e, declarations::members(s, e.end), k);
    let f = join(e, declarations::members(s, e.end));
    if f.ok {
        lemma_same_from_later(s, p, t, k, f.end);
        lemma_trivia_nested(s, f.end);
        lemma_trivia_moved(s, f.end, t, k);
    }
    crate::nesting::forest::lemma_join_nested(s, p, f, trivia(s, f.end));
    lemma_moved_join(f, trivia(s, f.end), k);
    let g = join(f, trivia(s, f.end));
    if g.ok {
        lemma_same_from_later(s, p, t, k, g.end);
        lemma_keyword_nested(s, g.end, "end".spec_bytes());
        lemma_keyword_moved(s, g.end, t, k, "end".spec_bytes());
    }
    crate::nesting::forest::lemma_join_nested(s, p, g, keyword(s, g.end, "end".spec_bytes()));
    lemma_moved_join(g, keyword(s, g.end, "end".spec_bytes()), k);
    let h = join(g, keyword(s, g.end, "end".spec_bytes()));
    lemma_moved_node(Rule::ModuleDecl, p, h, k);
}

/// `const_decl` does the same where the same text stands at another offset.
pub proof fn lemma_const_decl_moved(s: Seq<u8>, p: int, t: Seq<u8>, k: int)
    requires
        same_from(s, p, t, k),
    ensures
        declarations::const_decl(t, p + k) == moved(declarations::const_decl(s, p), k),
{
    reveal(declarations::const_decl);
    crate::nesting::names::lemma_const_name_nested(s, p);
    crate::shifting::names::lemma_const_name_moved(s, p, t, k);
    let a = names::const_name(s, p);
    if a.ok {
        lemma_same_from_later(s, p, t, k, a.end);
        lemma_trivia_nested(s, a.end);
        lemma_trivia_moved(s, a.end, t, k);
    }
    crate::nesting::forest::lemma_join_nested(s, p, a, trivia(s, a.end));
    lemma_moved_join(a, trivia(s, a.end), k);
    let b = join(a, trivia(s, a.end));
    if b.ok {
        lemma_same_from_later(s, p, t, k, b.end);
        lemma_byte_nested(s, b.end, COLON);
        lemma_byte_moved(s, b.end, t, k, COLON);
    }
    crate::nesting::forest::lemma_join_nested(s, p, b, byte(s, b.end, COLON));
    lemma_moved_join(b, byte(s, b.end, COLON), k);
    let c = join(b, byte(s, b.end, COLON));
    if c.ok {
        lemma_same_from_later(s, p, t, k, c.end);
        lemma_trivia_nested(s, c.end);
        lemma_trivia_moved(s, c.end, t, k);
    }
    crate::nesting::forest::lemma_join_nested(s, p, c, trivia(s, c.end));
    lemma_moved_join(c, trivia(s, c.end), k);
    let d = join(c, trivia(s, c.end));
    if d.ok {
        lemma_same_from_later(s, p, t, k, d.end);
        crate::nesting::types::lemma_type_expr_nested(s, d.end);
        crate::shifting::types::lemma_type_expr_moved(s, d.end, t, k);
    }
    crate::nesting::forest::lemma_join_nested(s, p, d, types::type_expr(s, d.end));
    lemma_moved_join(d, types::type_expr(s, d.end), k);
    let e = join(d, types::type_expr(s, d.end));
    lemma_moved_node(Rule::ConstDecl, p, e, k);
}

} // verus!
