use vstd::prelude::*;
use vstd::string::StringSliceAdditionalSpecFns;
use crate::grammar::lexical::{
    byte, keyword, trivia, COLON, COMMA, LEFT_BRACKET, LESS, RIGHT_BRACKET,
};
use crate::grammar::members::member;
use crate::grammar::names::{class_name, const_name, upper_ident};
use crate::grammar::step::{either, join, node, opt, quiet, Step};
use crate::grammar::types::{type_class_instance_name, type_expr, type_list};
use crate::rule::Rule;

verus! {

/// The modifier `unchecked`.
#[verifier::opaque]
pub open spec fn unchecked(s: Seq<u8>, p: int) -> Step {
    node(Rule::Unchecked, p, keyword(s, p, "unchecked".spec_bytes()))
}

/// The modifier `out`.
#[verifier::opaque]
pub open spec fn variance_out(s: Seq<u8>, p: int) -> Step {
    node(Rule::VarianceOut, p, keyword(s, p, "out".spec_bytes()))
}

/// The modifier `in`.
#[verifier::opaque]
pub open spec fn variance_in(s: Seq<u8>, p: int) -> Step {
    node(Rule::VarianceIn, p, keyword(s, p, "in".spec_bytes()))
}

/// `unchecked` and the white space behind it.
#[verifier::opaque]
pub open spec fn spaced_unchecked(s: Seq<u8>, p: int) -> Step {
    let a = unchecked(s, p);
    quiet(p, join(a, trivia(s, a.end)))
}

/// `out` or `in`, and the white space behind it.
#[verifier::opaque]
pub open spec fn spaced_variance(s: Seq<u8>, p: int) -> Step {
    let a = either(variance_out(s, p), variance_in(s, p));
    quiet(p, join(a, trivia(s, a.end)))
}

/// The modifiers of a generic parameter: `unchecked`, a variance, or both
/// in either order.
#[verifier::opaque]
pub open spec fn modifiers(s: Seq<u8>, p: int) -> Step {
    let a = spaced_unchecked(s, p);
    let b = spaced_variance(s, p);
    either(
        quiet(p, join(a, opt(a.end, spaced_variance(s, a.end)))),
        quiet(p, join(b, opt(b.end, spaced_unchecked(s, b.end)))),
    )
}

/// The identifier of a generic parameter.
#[verifier::opaque]
pub open spec fn type_param_name(s: Seq<u8>, p: int) -> Step {
    node(Rule::TypeParamName, p, upper_ident(s, p))
}

/// The upper bound of a generic parameter: `<` and a type, with white
/// space allowed around the `<`.
#[verifier::opaque]
pub open spec fn bound(s: Seq<u8>, p: int) -> Step {
    let a = trivia(s, p);
    let b = join(a, byte(s, a.end, LESS));
    let c = join(b, trivia(s, b.end));
    quiet(p, join(c, type_expr(s, c.end)))
}

/// A generic parameter: optional modifiers, the identifier and an optional
/// upper bound.
#[verifier::opaque]
pub open spec fn type_param(s: Seq<u8>, p: int) -> Step {
    let a = opt(p, modifiers(s, p));
    let b = join(a, type_param_name(s, a.end));
    node(Rule::TypeParam, p, join(b, opt(b.end, bound(s, b.end))))
}

/// A comma and a generic parameter, with white space allowed around the
/// comma.
#[verifier::opaque]
pub open spec fn comma_type_param(s: Seq<u8>, p: int) -> Step {
    let a = trivia(s, p);
    let b = join(a, byte(s, a.end, COMMA));
    let c = join(b, trivia(s, b.end));
    quiet(p, join(c, type_param(s, c.end)))
}

/// As many further generic parameters, each behind a comma, as there are
/// at `p`; never fails.
#[verifier::opaque]
pub open spec fn more_type_params(s: Seq<u8>, p: int) -> Step
    decreases s.len() - p,
{
    let item = comma_type_param(s, p);
    if item.ok && p < item.end <= s.len() {
        join(item, more_type_params(s, item.end))
    } else {
        opt(p, item)
    }
}

/// The generic parameters of a declaration: `[`, one or more parameters
/// between commas, and `]`.
#[verifier::opaque]
pub open spec fn type_params(s: Seq<u8>, p: int) -> Step {
    let a = byte(s, p, LEFT_BRACKET);
    let b = join(a, trivia(s, a.end));
    let c = join(b, type_param(s, b.end));
    let d = join(c, more_type_params(s, c.end));
    let e = join(d, trivia(s, d.end));
    node(Rule::TypeParams, p, join(e, byte(s, e.end, RIGHT_BRACKET)))
}

/// White space and generic parameters; the part of a declaration that may
/// be missing.
#[verifier::opaque]
pub open spec fn spaced_type_params(s: Seq<u8>, p: int) -> Step {
    let a = trivia(s, p);
    quiet(p, join(a, type_params(s, a.end)))
}

/// The superclass of a class: `<` and a class with optional type
/// arguments.
#[verifier::opaque]
pub open spec fn super_class(s: Seq<u8>, p: int) -> Step {
    let a = byte(s, p, LESS);
    let b = join(a, trivia(s, a.end));
    node(Rule::SuperClass, p, join(b, type_class_instance_name(s, b.end)))
}

/// White space and a superclass; the part of a class declaration that may
/// be missing.
#[verifier::opaque]
pub open spec fn spaced_super_class(s: Seq<u8>, p: int) -> Step {
    let a = trivia(s, p);
    quiet(p, join(a, super_class(s, a.end)))
}

/// The self types of a module: `:` and one or more types between commas.
#[verifier::opaque]
pub open spec fn self_types(s: Seq<u8>, p: int) -> Step {
    let a = byte(s, p, COLON);
    let b = join(a, trivia(s, a.end));
    node(Rule::SelfTypes, p, join(b, type_list(s, b.end)))
}

/// White space and self types; the part of a module declaration that may
/// be missing.
#[verifier::opaque]
pub open spec fn spaced_self_types(s: Seq<u8>, p: int) -> Step {
    let a = trivia(s, p);
    quiet(p, join(a, self_types(s, a.end)))
}

/// White space and a member.
#[verifier::opaque]
pub open spec fn spaced_member(s: Seq<u8>, p: int) -> Step {
    let a = trivia(s, p);
    quiet(p, join(a, member(s, a.end)))
}

/// As many members as there are at `p`; never fails.
#[verifier::opaque]
pub open spec fn members(s: Seq<u8>, p: int) -> Step
    decreases s.len() - p,
{
    let item = spaced_member(s, p);
    if item.ok && p < item.end <= s.len() {
        join(item, members(s, item.end))
    } else {
        opt(p, item)
    }
}

/// A class declaration: `class`, the name, optional generic parameters, an
/// optional superclass, the members and `end`.
#[verifier::opaque]
pub open spec fn class_decl(s: Seq<u8>, p: int) -> Step {
    let a = keyword(s, p, "class".spec_bytes());
    let b = join(a, trivia(s, a.end));
    let c = join(b, class_name(s, b.end));
    let d = join(c, opt(c.end, spaced_type_params(s, c.end)));
    let e = join(d, opt(d.end, spaced_super_class(s, d.end)));
    let f = join(e, members(s, e.end));
    let g = join(f, trivia(s, f.end));
    node(Rule::ClassDecl, p, join(g, keyword(s, g.end, "end".spec_bytes())))
}

/// A module declaration: `module`, the name, optional generic parameters,
/// optional self types, the members and `end`.
#[verifier::opaque]
pub open spec fn module_decl(s: Seq<u8>, p: int) -> Step {
    let a = keyword(s, p, "module".spec_bytes());
    let b = join(a, trivia(s, a.end));
    let c = join(b, class_name(s, b.end));
    let d = join(c, opt(c.end, spaced_type_params(s, c.end)));
    let e = join(d, opt(d.end, spaced_self_types(s, d.end)));
    let f = join(e, members(s, e.end));
    let g = join(f, trivia(s, f.end));
    node(Rule::ModuleDecl, p, join(g, keyword(s, g.end, "end".spec_bytes())))
}

/// A constant declaration: the name, `:` and the type.
#[verifier::opaque]
pub open spec fn const_decl(s: Seq<u8>, p: int) -> Step {
    let a = const_name(s, p);
    let b = join(a, trivia(s, a.end));
    let c = join(b, byte(s, b.end, COLON));
    let d = join(c, trivia(s, c.end));
    node(Rule::ConstDecl, p, join(d, type_expr(s, d.end)))
}

} // verus!
