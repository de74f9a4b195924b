use vstd::prelude::*;
use crate::grammar::rules::production;
use crate::locality::agreeing::agree;
use crate::rule::Rule;

verus! {

/// Every production depends on the input only through the bytes that it
/// looked at: on an input with the same bytes there, it does the same.
pub proof fn lemma_production_local(rule: Rule, s: Seq<u8>, t: Seq<u8>, p: int)
    requires
        0 <= p <= s.len(),
        agree(s, t, production(rule, s, p).seen),
    ensures
        production(rule, t, p) == production(rule, s, p),
{
    match rule {
        Rule::ClassDecl => {
            crate::locality::declarations::lemma_class_decl_local(s, t, p);
        },
        Rule::ModuleDecl => {
            crate::locality::declarations::lemma_module_decl_local(s, t, p);
        },
        Rule::ConstDecl => {
            crate::locality::declarations::lemma_const_decl_local(s, t, p);
        },
        Rule::TypeParams => {
            crate::locality::declarations::lemma_type_params_local(s, t, p);
        },
        Rule::TypeParam => {
            crate::locality::declarations::lemma_type_param_local(s, t, p);
        },
        Rule::Unchecked => {
            crate::locality::declarations::lemma_unchecked_local(s, t, p);
        },
        Rule::VarianceOut => {
            crate::locality::declarations::lemma_variance_out_local(s, t, p);
        },
        Rule::VarianceIn => {
            crate::locality::declarations::lemma_variance_in_local(s, t, p);
        },
        Rule::TypeParamName => {
            crate::locality::declarations::lemma_type_param_name_local(s, t, p);
        },
        Rule::SuperClass => {
            crate::locality::declarations::lemma_super_class_local(s, t, p);
        },
        Rule::SelfTypes => {
            crate::locality::declarations::lemma_self_types_local(s, t, p);
        },
        Rule::MemberMethod => {
            crate::locality::members::lemma_member_method_local(s, t, p);
        },
        Rule::MemberAlias => {
            crate::locality::members::lemma_member_alias_local(s, t, p);
        },
        Rule::MemberAttribute => {
            crate::locality::members::lemma_member_attribute_local(s, t, p);
        },
        Rule::MemberInclude => {
            crate::locality::members::lemma_member_include_local(s, t, p);
        },
        Rule::MemberExtend => {
            crate::locality::members::lemma_member_extend_local(s, t, p);
        },
        Rule::ReceiverSelf => {
            crate::locality::members::lemma_receiver_self_local(s, t, p);
        },
        Rule::ReceiverSelfOrInstance => {
            crate::locality::members::lemma_receiver_self_or_instance_local(s, t, p);
        },
        Rule::MethodName => {
            crate::locality::members::lemma_method_name_local(s, t, p);
        },
        Rule::MethodType => {
            crate::locality::members::lemma_method_type_local(s, t, p);
        },
        Rule::Params => {
            crate::locality::members::lemma_params_local(s, t, p);
        },
        Rule::MethodRef => {
            crate::locality::members::lemma_method_ref_local(s, t, p);
        },
        Rule::AttrReader => {
            crate::locality::members::lemma_attr_reader_local(s, t, p);
        },
        Rule::AttrWriter => {
            crate::locality::members::lemma_attr_writer_local(s, t, p);
        },
        Rule::AttrAccessor => {
            crate::locality::members::lemma_attr_accessor_local(s, t, p);
        },
        Rule::AttributeName => {
            crate::locality::members::lemma_attribute_name_local(s, t, p);
        },
        Rule::IvarClause => {
            crate::locality::members::lemma_ivar_clause_local(s, t, p);
        },
        Rule::IvarName => {
            crate::locality::members::lemma_ivar_name_local(s, t, p);
        },
        Rule::Type => {
            crate::locality::types::lemma_type_expr_local(s, t, p);
        },
        Rule::TypeClassInstanceName => {
            crate::locality::types::lemma_type_class_instance_name_local(s, t, p);
        },
        Rule::TypeInterfaceName => {
            crate::locality::types::lemma_type_interface_name_local(s, t, p);
        },
        Rule::TypeAliasName => {
            crate::locality::types::lemma_type_alias_name_local(s, t, p);
        },
        Rule::TypeSingletonClassName => {
            crate::locality::types::lemma_type_singleton_class_name_local(s, t, p);
        },
        Rule::TypeArguments => {
            crate::locality::types::lemma_type_arguments_local(s, t, p);
        },
        Rule::ClassName => {
            crate::locality::names::lemma_class_name_local(s, t, p);
        },
        Rule::InterfaceName => {
            crate::locality::names::lemma_interface_name_local(s, t, p);
        },
        Rule::AliasName => {
            crate::locality::names::lemma_alias_name_local(s, t, p);
        },
        Rule::ConstName => {
            crate::locality::names::lemma_const_name_local(s, t, p);
        },
        Rule::Literal => {
            crate::locality::literals::lemma_literal_value_local(s, t, p);
        },
        Rule::LiteralString => {
            crate::locality::literals::lemma_literal_string_local(s, t, p);
        },
        Rule::LiteralSymbol => {
            crate::locality::literals::lemma_literal_symbol_local(s, t, p);
        },
        Rule::LiteralInteger => {
            crate::locality::literals::lemma_literal_integer_local(s, t, p);
        },
        Rule::SingleQuotedString => {
            crate::locality::literals::lemma_single_quoted_string_local(s, t, p);
        },
        Rule::DoubleQuotedString => {
            crate::locality::literals::lemma_double_quoted_string_local(s, t, p);
        },
        Rule::Escape => {
            crate::locality::literals::lemma_escape_local(s, t, p);
        },
        Rule::LiteralBoolean => {
            crate::locality::literals::lemma_literal_boolean_local(s, t, p);
        },
    }
}

} // verus!
