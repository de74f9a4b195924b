use vstd::prelude::*;
use vstd::string::StringSliceAdditionalSpecFns;
use crate::grammar::lexical::{
    byte, keyword, literal, one, run, trivia, Class, AT, COLON, DOT, LEFT_PAREN, QUESTION,
    RIGHT_PAREN,
};
use crate::grammar::names::lower_ident;
use crate::grammar::step::{either, join, node, opt, quiet, Step};
use crate::grammar::types::{type_class_instance_name, type_expr, type_interface_name, type_list};
use crate::rule::Rule;

verus! {

/// The receiver `self.`: white space may stand in front of the dot.
#[verifier::opaque]
pub open spec fn receiver_self(s: Seq<u8>, p: int) -> Step {
    let a = keyword(s, p, "self".spec_bytes());
    let b = join(a, trivia(s, a.end));
    node(Rule::ReceiverSelf, p, join(b, byte(s, b.end, DOT)))
}

/// The receiver `self?.`: white space may stand around the question mark.
#[verifier::opaque]
pub open spec fn receiver_self_or_instance(s: Seq<u8>, p: int) -> Step {
    let a = keyword(s, p, "self".spec_bytes());
    let b = join(a, trivia(s, a.end));
    let c = join(b, byte(s, b.end, QUESTION));
    let d = join(c, trivia(s, c.end));
    node(Rule::ReceiverSelfOrInstance, p, join(d, byte(s, d.end, DOT)))
}

/// A receiver and the white space behind it; the part of a method member
/// that may be missing.
#[verifier::opaque]
pub open spec fn spaced_receiver(s: Seq<u8>, p: int) -> Step {
    let a = either(receiver_self_or_instance(s, p), receiver_self(s, p));
    quiet(p, join(a, trivia(s, a.end)))
}

/// The receiver `self.` and the white space behind it; the part of an
/// operand of `alias` that may be missing.
#[verifier::opaque]
pub open spec fn spaced_receiver_self(s: Seq<u8>, p: int) -> Step {
    let a = receiver_self(s, p);
    quiet(p, join(a, trivia(s, a.end)))
}

/// A method name: a lower-case identifier and, optionally, one of `?`, `!`
/// and `=`.
#[verifier::opaque]
pub open spec fn method_name(s: Seq<u8>, p: int) -> Step {
    let a = lower_ident(s, p);
    node(Rule::MethodName, p, join(a, opt(a.end, one(s, a.end, Class::Suffix))))
}

/// The types of a parameter list, and the white space behind them.
#[verifier::opaque]
pub open spec fn spaced_type_list(s: Seq<u8>, p: int) -> Step {
    let a = type_list(s, p);
    quiet(p, join(a, trivia(s, a.end)))
}

/// A parameter list: parentheses around types between commas, or around
/// nothing.
#[verifier::opaque]
pub open spec fn params(s: Seq<u8>, p: int) -> Step {
    let a = byte(s, p, LEFT_PAREN);
    let b = join(a, trivia(s, a.end));
    let c = join(b, opt(b.end, spaced_type_list(s, b.end)));
    node(Rule::Params, p, join(c, byte(s, c.end, RIGHT_PAREN)))
}

/// A method type: a parameter list, `->` and the type returned.
#[verifier::opaque]
pub open spec fn method_type(s: Seq<u8>, p: int) -> Step {
    let a = params(s, p);
    let b = join(a, trivia(s, a.end));
    let c = join(b, literal(s, b.end, "->".spec_bytes()));
    let d = join(c, trivia(s, c.end));
    node(Rule::MethodType, p, join(d, type_expr(s, d.end)))
}

/// A method member: `def`, an optional receiver, the name, `:` and the
/// method type.
#[verifier::opaque]
pub open spec fn member_method(s: Seq<u8>, p: int) -> Step {
    let a = keyword(s, p, "def".spec_bytes());
    let b = join(a, trivia(s, a.end));
    let c = join(b, opt(b.end, spaced_receiver(s, b.end)));
    let d = join(c, method_name(s, c.end));
    let e = join(d, trivia(s, d.end));
    let f = join(e, byte(s, e.end, COLON));
    let g = join(f, trivia(s, f.end));
    node(Rule::MemberMethod, p, join(g, method_type(s, g.end)))
}

/// One operand of `alias`: a method name, optionally behind `self.`.
#[verifier::opaque]
pub open spec fn method_ref(s: Seq<u8>, p: int) -> Step {
    let a = opt(p, spaced_receiver_self(s, p));
    node(Rule::MethodRef, p, join(a, method_name(s, a.end)))
}

/// An alias member: `alias`, the new name and the old one.
#[verifier::opaque]
pub open spec fn member_alias(s: Seq<u8>, p: int) -> Step {
    let a = keyword(s, p, "alias".spec_bytes());
    let b = join(a, trivia(s, a.end));
    let c = join(b, method_ref(s, b.end));
    let d = join(c, trivia(s, c.end));
    node(Rule::MemberAlias, p, join(d, method_ref(s, d.end)))
}

/// The keyword `attr_reader`.
#[verifier::opaque]
pub open spec fn attr_reader(s: Seq<u8>, p: int) -> Step {
    node(Rule::AttrReader, p, keyword(s, p, "attr_reader".spec_bytes()))
}

/// The keyword `attr_writer`.
#[verifier::opaque]
pub open spec fn attr_writer(s: Seq<u8>, p: int) -> Step {
    node(Rule::AttrWriter, p, keyword(s, p, "attr_writer".spec_bytes()))
}

/// The keyword `attr_accessor`.
#[verifier::opaque]
pub open spec fn attr_accessor(s: Seq<u8>, p: int) -> Step {
    node(Rule::AttrAccessor, p, keyword(s, p, "attr_accessor".spec_bytes()))
}

/// One of the three keywords that start an attribute member.
#[verifier::opaque]
pub open spec fn attribute_kind(s: Seq<u8>, p: int) -> Step {
    either(attr_reader(s, p), either(attr_writer(s, p), attr_accessor(s, p)))
}

/// The name of an attribute: a lower-case identifier.
#[verifier::opaque]
pub open spec fn attribute_name(s: Seq<u8>, p: int) -> Step {
    node(Rule::AttributeName, p, lower_ident(s, p))
}

/// The name of an instance variable: `@`, a letter or `_`, and what
/// continues the identifier.
#[verifier::opaque]
pub open spec fn ivar_name(s: Seq<u8>, p: int) -> Step {
    let a = byte(s, p, AT);
    let b = join(a, one(s, a.end, Class::IdentStart));
    node(Rule::IvarName, p, join(b, run(s, b.end, Class::Word)))
}

/// The name of an instance variable and the white space behind it.
#[verifier::opaque]
pub open spec fn spaced_ivar_name(s: Seq<u8>, p: int) -> Step {
    let a = ivar_name(s, p);
    quiet(p, join(a, trivia(s, a.end)))
}

/// The instance-variable clause of an attribute: parentheses around the
/// name of an instance variable, or around nothing.
#[verifier::opaque]
pub open spec fn ivar_clause(s: Seq<u8>, p: int) -> Step {
    let a = byte(s, p, LEFT_PAREN);
    let b = join(a, trivia(s, a.end));
    let c = join(b, opt(b.end, spaced_ivar_name(s, b.end)));
    node(Rule::IvarClause, p, join(c, byte(s, c.end, RIGHT_PAREN)))
}

/// White space and an instance-variable clause; the part of an attribute
/// member that may be missing.
#[verifier::opaque]
pub open spec fn spaced_ivar_clause(s: Seq<u8>, p: int) -> Step {
    let a = trivia(s, p);
    quiet(p, join(a, ivar_clause(s, a.end)))
}

/// An attribute member: one of the three keywords, the name, an optional
/// instance-variable clause, `:` and the type.
#[verifier::opaque]
pub open spec fn member_attribute(s: Seq<u8>, p: int) -> Step {
    let a = attribute_kind(s, p);
    let b = join(a, trivia(s, a.end));
    let c = join(b, attribute_name(s, b.end));
    let d = join(c, opt(c.end, spaced_ivar_clause(s, c.end)));
    let e = join(d, trivia(s, d.end));
    let f = join(e, byte(s, e.end, COLON));
    let g = join(f, trivia(s, f.end));
    node(Rule::MemberAttribute, p, join(g, type_expr(s, g.end)))
}

/// What `include` and `extend` take: an interface or a class, with
/// optional type arguments.
#[verifier::opaque]
pub open spec fn mixin_target(s: Seq<u8>, p: int) -> Step {
    either(type_interface_name(s, p), type_class_instance_name(s, p))
}

/// An include member: `include` and an interface or a class.
#[verifier::opaque]
pub open spec fn member_include(s: Seq<u8>, p: int) -> Step {
    let a = keyword(s, p, "include".spec_bytes());
    let b = join(a, trivia(s, a.end));
    node(Rule::MemberInclude, p, join(b, mixin_target(s, b.end)))
}

/// An extend member: `extend` and an interface or a class.
#[verifier::opaque]
pub open spec fn member_extend(s: Seq<u8>, p: int) -> Step {
    let a = keyword(s, p, "extend".spec_bytes());
    let b = join(a, trivia(s, a.end));
    node(Rule::MemberExtend, p, join(b, mixin_target(s, b.end)))
}

/// Any member: a method, an alias, an attribute, an include or an extend,
/// tried in this order.
#[verifier::opaque]
pub open spec fn member(s: Seq<u8>, p: int) -> Step {
    either(
        member_method(s, p),
        either(
            member_alias(s, p),
            either(member_attribute(s, p), either(member_include(s, p), member_extend(s, p))),
        ),
    )
}

} // verus!
