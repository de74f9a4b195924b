use vstd::prelude::*;
use crate::firmness::firm::firm;
use crate::grammar::rules::production;
use crate::rule::Rule;

verus! {

/// Every node that a production leaves spans something.
pub proof fn lemma_production_firm(rule: Rule, s: Seq<u8>, p: int)
    requires
        0 <= p <= s.len(),
    ensures
        firm(production(rule, s, p)),
{
    match rule {
        Rule::ClassDecl => {
            crate::firmness::declarations::lemma_class_decl_firm(s, p);
        },
        Rule::ModuleDecl => {
            crate::firmness::declarations::lemma_module_decl_firm(s, p);
        },
        Rule::ConstDecl => {
            crate::firmness::declarations::lemma_const_decl_firm(s, p);
        },
        Rule::TypeParams => {
            crate::firmness::declarations::lemma_type_params_firm(s, p);
        },
        Rule::TypeParam => {
            crate::firmness::declarations::lemma_type_param_firm(s, p);
        },
        Rule::Unchecked => {
            crate::firmness::declarations::lemma_unchecked_firm(s, p);
        },
        Rule::VarianceOut => {
            crate::firmness::declarations::lemma_variance_out_firm(s, p);
        },
        Rule::VarianceIn => {
            crate::firmness::declarations::lemma_variance_in_firm(s, p);
        },
        Rule::TypeParamName => {
            crate::firmness::declarations::lemma_type_param_name_firm(s, p);
        },
        Rule::SuperClass => {
            crate::firmness::declarations::lemma_super_class_firm(s, p);
        },
        Rule::SelfTypes => {
            crate::firmness::declarations::lemma_self_types_firm(s, p);
        },
        Rule::MemberMethod => {
            crate::firmness::members::lemma_member_method_firm(s, p);
        },
        Rule::MemberAlias => {
            crate::firmness::members::lemma_member_alias_firm(s, p);
        },
        Rule::MemberAttribute => {
            crate::firmness::members::lemma_member_attribute_firm(s, p);
        },
        Rule::MemberInclude => {
            crate::firmness::members::lemma_member_include_firm(s, p);
        },
        Rule::MemberExtend => {
            crate::firmness::members::lemma_member_extend_firm(s, p);
        },
        Rule::ReceiverSelf => {
            crate::firmness::members::lemma_receiver_self_firm(s, p);
        },
        Rule::ReceiverSelfOrInstance => {
            crate::firmness::members::lemma_receiver_self_or_instance_firm(s, p);
        },
        Rule::MethodName => {
            crate::firmness::members::lemma_method_name_firm(s, p);
        },
        Rule::MethodType => {
            crate::firmness::members::lemma_method_type_firm(s, p);
        },
        Rule::Params => {
            crate::firmness::members::lemma_params_firm(s, p);
        },
        Rule::MethodRef => {
            crate::firmness::members::lemma_method_ref_firm(s, p);
        },
        Rule::AttrReader => {
            crate::firmness::members::lemma_attr_reader_firm(s, p);
        },
        Rule::AttrWriter => {
            crate::firmness::members::lemma_attr_writer_firm(s, p);
        },
        Rule::AttrAccessor => {
            crate::firmness::members::lemma_attr_accessor_firm(s, p);
        },
        Rule::AttributeName => {
            crate::firmness::members::lemma_attribute_name_firm(s, p);
        },
        Rule::IvarClause => {
            crate::firmness::members::lemma_ivar_clause_firm(s, p);
        },
        Rule::IvarName => {
            crate::firmness::members::lemma_ivar_name_firm(s, p);
        },
        Rule::Type => {
            crate::firmness::types::lemma_type_expr_firm(s, p);
        },
        Rule::TypeClassInstanceName => {
            crate::firmness::types::lemma_type_class_instance_name_firm(s, p);
        },
        Rule::TypeInterfaceName => {
            crate::firmness::types::lemma_type_interface_name_firm(s, p);
        },
        Rule::TypeAliasName => {
            crate::firmness::types::lemma_type_alias_name_firm(s, p);
        },
        Rule::TypeSingletonClassName => {
            crate::firmness::types::lemma_type_singleton_class_name_firm(s, p);
        },
        Rule::TypeArguments => {
            crate::firmness::types::lemma_type_arguments_firm(s, p);
        },
        Rule::ClassName => {
            crate::firmness::names::lemma_class_name_firm(s, p);
        },
        Rule::InterfaceName => {
            crate::firmness::names::lemma_interface_name_firm(s, p);
        },
        Rule::AliasName => {
            crate::firmness::names::lemma_alias_name_firm(s, p);
        },
        Rule::ConstName => {
            crate::firmness::names::lemma_const_name_firm(s, p);
        },
        Rule::Literal => {
            crate::firmness::literals::lemma_literal_value_firm(s, p);
        },
        Rule::LiteralString => {
            crate::firmness::literals::lemma_literal_string_firm(s, p);
        },
        Rule::LiteralSymbol => {
            crate::firmness::literals::lemma_literal_symbol_firm(s, p);
        },
        Rule::LiteralInteger => {
            crate::firmness::literals::lemma_literal_integer_firm(s, p);
        },
        Rule::SingleQuotedString => {
            crate::firmness::literals::lemma_single_quoted_string_firm(s, p);
        },
        Rule::DoubleQuotedString => {
            crate::firmness::literals::lemma_double_quoted_string_firm(s, p);
        },
        Rule::Escape => {
            crate::firmness::literals::lemma_escape_firm(s, p);
        },
        Rule::LiteralBoolean => {
            crate::firmness::literals::lemma_literal_boolean_firm(s, p);
        },
    }
}

} // verus!
