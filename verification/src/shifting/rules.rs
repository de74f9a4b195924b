use vstd::prelude::*;
use crate::grammar::rules::production;
use crate::rule::Rule;
use crate::shifting::moved::{moved, same_from};

verus! {

/// Every production depends on the input only from its start on: where
/// `t` from `p + k` on is what `s` is from `p` on, the production does at
/// `p + k` in `t` what it does at `p` in `s`, every offset moved by `k`.
pub proof fn lemma_production_moved(rule: Rule, s: Seq<u8>, p: int, t: Seq<u8>, k: int)
    requires
        same_from(s, p, t, k),
    ensures
        production(rule, t, p + k) == moved(production(rule, s, p), k),
{
    match rule {
        Rule::ClassDecl => {
            crate::shifting::declarations::lemma_class_decl_moved(s, p, t, k);
        },
        Rule::ModuleDecl => {
            crate::shifting::declarations::lemma_module_decl_moved(s, p, t, k);
        },
        Rule::ConstDecl => {
            crate::shifting::declarations::lemma_const_decl_moved(s, p, t, k);
        },
        Rule::TypeParams => {
            crate::shifting::declarations::lemma_type_params_moved(s, p, t, k);
        },
        Rule::TypeParam => {
            crate::shifting::declarations::lemma_type_param_moved(s, p, t, k);
        },
        Rule::Unchecked => {
            crate::shifting::declarations::lemma_unchecked_moved(s, p, t, k);
        },
        Rule::VarianceOut => {
            crate::shifting::declarations::lemma_variance_out_moved(s, p, t, k);
        },
        Rule::VarianceIn => {
            crate::shifting::declarations::lemma_variance_in_moved(s, p, t, k);
        },
        Rule::TypeParamName => {
            crate::shifting::declarations::lemma_type_param_name_moved(s, p, t, k);
        },
        Rule::SuperClass => {
            crate::shifting::declarations::lemma_super_class_moved(s, p, t, k);
        },
        Rule::SelfTypes => {
            crate::shifting::declarations::lemma_self_types_moved(s, p, t, k);
        },
        Rule::MemberMethod => {
            crate::shifting::members::lemma_member_method_moved(s, p, t, k);
        },
        Rule::MemberAlias => {
            crate::shifting::members::lemma_member_alias_moved(s, p, t, k);
        },
        Rule::MemberAttribute => {
            crate::shifting::members::lemma_member_attribute_moved(s, p, t, k);
        },
        Rule::MemberInclude => {
            crate::shifting::members::lemma_member_include_moved(s, p, t, k);
        },
        Rule::MemberExtend => {
            crate::shifting::members::lemma_member_extend_moved(s, p, t, k);
        },
        Rule::ReceiverSelf => {
            crate::shifting::members::lemma_receiver_self_moved(s, p, t, k);
        },
        Rule::ReceiverSelfOrInstance => {
            crate::shifting::members::lemma_receiver_self_or_instance_moved(s, p, t, k);
        },
        Rule::MethodName => {
            crate::shifting::members::lemma_method_name_moved(s, p, t, k);
        },
        Rule::MethodType => {
            crate::shifting::members::lemma_method_type_moved(s, p, t, k);
        },
        Rule::Params => {
            crate::shifting::members::lemma_params_moved(s, p, t, k);
        },
        Rule::MethodRef => {
            crate::shifting::members::lemma_method_ref_moved(s, p, t, k);
        },
        Rule::AttrReader => {
            crate::shifting::members::lemma_attr_reader_moved(s, p, t, k);
        },
        Rule::AttrWriter => {
            crate::shifting::members::lemma_attr_writer_moved(s, p, t, k);
        },
        Rule::AttrAccessor => {
            crate::shifting::members::lemma_attr_accessor_moved(s, p, t, k);
        },
        Rule::AttributeName => {
            crate::shifting::members::lemma_attribute_name_moved(s, p, t, k);
        },
        Rule::IvarClause => {
            crate::shifting::members::lemma_ivar_clause_moved(s, p, t, k);
        },
        Rule::IvarName => {
            crate::shifting::members::lemma_ivar_name_moved(s, p, t, k);
        },
        Rule::Type => {
            crate::shifting::types::lemma_type_expr_moved(s, p, t, k);
        },
        Rule::TypeClassInstanceName => {
            crate::shifting::types::lemma_type_class_instance_name_moved(s, p, t, k);
        },
        Rule::TypeInterfaceName => {
            crate::shifting::types::lemma_type_interface_name_moved(s, p, t, k);
        },
        Rule::TypeAliasName => {
            crate::shifting::types::lemma_type_alias_name_moved(s, p, t, k);
        },
        Rule::TypeSingletonClassName => {
            crate::shifting::types::lemma_type_singleton_class_name_moved(s, p, t, k);
        },
        Rule::TypeArguments => {
            crate::shifting::types::lemma_type_arguments_moved(s, p, t, k);
        },
        Rule::ClassName => {
            crate::shifting::names::lemma_class_name_moved(s, p, t, k);
        },
        Rule::InterfaceName => {
            crate::shifting::names::lemma_interface_name_moved(s, p, t, k);
        },
        Rule::AliasName => {
            crate::shifting::names::lemma_alias_name_moved(s, p, t, k);
        },
        Rule::ConstName => {
            crate::shifting::names::lemma_const_name_moved(s, p, t, k);
        },
        Rule::Literal => {
            crate::shifting::literals::lemma_literal_value_moved(s, p, t, k);
        },
        Rule::LiteralString => {
            crate::shifting::literals::lemma_literal_string_moved(s, p, t, k);
        },
        Rule::LiteralSymbol => {
            crate::shifting::literals::lemma_literal_symbol_moved(s, p, t, k);
        },
        Rule::LiteralInteger => {
            crate::shifting::literals::lemma_literal_integer_moved(s, p, t, k);
        },
        Rule::SingleQuotedString => {
            crate::shifting::literals::lemma_single_quoted_string_moved(s, p, t, k);
        },
        Rule::DoubleQuotedString => {
            crate::shifting::literals::lemma_double_quoted_string_moved(s, p, t, k);
        },
        Rule::Escape => {
            crate::shifting::literals::lemma_escape_moved(s, p, t, k);
        },
        Rule::LiteralBoolean => {
            crate::shifting::literals::lemma_literal_boolean_moved(s, p, t, k);
        },
    }
}

} // verus!
