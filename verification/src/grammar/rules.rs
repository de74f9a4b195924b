use vstd::prelude::*;
use crate::grammar::lexical::end_of_input;
use crate::grammar::step::{join, max, Step};
use crate::grammar::{declarations, literals, members, names, types};
use crate::rule::Rule;
use crate::tree::NodeView;

verus! {

/// The production that leaves a node for `rule`, attempted at `p`.
pub open spec fn production(rule: Rule, s: Seq<u8>, p: int) -> Step {
    match rule {
        Rule::ClassDecl => declarations::class_decl(s, p),
        Rule::ModuleDecl => declarations::module_decl(s, p),
        Rule::ConstDecl => declarations::const_decl(s, p),
        Rule::TypeParams => declarations::type_params(s, p),
        Rule::TypeParam => declarations::type_param(s, p),
        Rule::Unchecked => declarations::unchecked(s, p),
        Rule::VarianceOut => declarations::variance_out(s, p),
        Rule::VarianceIn => declarations::variance_in(s, p),
        Rule::TypeParamName => declarations::type_param_name(s, p),
        Rule::SuperClass => declarations::super_class(s, p),
        Rule::SelfTypes => declarations::self_types(s, p),
        Rule::MemberMethod => members::member_method(s, p),
        Rule::MemberAlias => members::member_alias(s, p),
        Rule::MemberAttribute => members::member_attribute(s, p),
        Rule::MemberInclude => members::member_include(s, p),
        Rule::MemberExtend => members::member_extend(s, p),
        Rule::ReceiverSelf => members::receiver_self(s, p),
        Rule::ReceiverSelfOrInstance => members::receiver_self_or_instance(s, p),
        Rule::MethodName => members::method_name(s, p),
        Rule::MethodType => members::method_type(s, p),
        Rule::Params => members::params(s, p),
        Rule::MethodRef => members::method_ref(s, p),
        Rule::AttrReader => members::attr_reader(s, p),
        Rule::AttrWriter => members::attr_writer(s, p),
        Rule::AttrAccessor => members::attr_accessor(s, p),
        Rule::AttributeName => members::attribute_name(s, p),
        Rule::IvarClause => members::ivar_clause(s, p),
        Rule::IvarName => members::ivar_name(s, p),
        Rule::Type => types::type_expr(s, p),
        Rule::TypeClassInstanceName => types::type_class_instance_name(s, p),
        Rule::TypeInterfaceName => types::type_interface_name(s, p),
        Rule::TypeAliasName => types::type_alias_name(s, p),
        Rule::TypeSingletonClassName => types::type_singleton_class_name(s, p),
        Rule::TypeArguments => types::type_arguments(s, p),
        Rule::ClassName => names::class_name(s, p),
        Rule::InterfaceName => names::interface_name(s, p),
        Rule::AliasName => names::alias_name(s, p),
        Rule::ConstName => names::const_name(s, p),
        Rule::Literal => literals::literal_value(s, p),
        Rule::LiteralString => literals::literal_string(s, p),
        Rule::LiteralSymbol => literals::literal_symbol(s, p),
        Rule::LiteralInteger => literals::literal_integer(s, p),
        Rule::SingleQuotedString => literals::single_quoted_string(s, p),
        Rule::DoubleQuotedString => literals::double_quoted_string(s, p),
        Rule::Escape => literals::escape(s, p),
        Rule::LiteralBoolean => literals::literal_boolean(s, p),
    }
}

/// A parse of the input `s` for `rule`: the production at the start of
/// `s` and, unless `rule` allows trailing input, the end of the input
/// right behind it.
pub open spec fn parse_attempt(rule: Rule, s: Seq<u8>) -> Step {
    let st = production(rule, s, 0);
    if rule.allows_trailing() {
        st
    } else {
        join(st, end_of_input(s, st.end))
    }
}

/// Whether the input `s` is accepted as `rule`.
pub open spec fn accepts(rule: Rule, s: Seq<u8>) -> bool {
    parse_attempt(rule, s).ok
}

/// The nodes of the syntax tree of `s` parsed as `rule`, parents before
/// children; meaningful where `s` is accepted.
pub open spec fn tree_of(rule: Rule, s: Seq<u8>) -> Seq<NodeView> {
    parse_attempt(rule, s).nodes
}

/// Where a failed parse of `s` for `rule` got stuck: the largest index it
/// looked at, the index one past the last byte standing for the end of the
/// input.
pub open spec fn stuck_at(rule: Rule, s: Seq<u8>) -> int {
    max(0, parse_attempt(rule, s).seen - 1)
}

} // verus!
