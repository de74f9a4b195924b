use vstd::prelude::*;
use crate::firmness::firm::solid;
use crate::grammar::rules::{accepts, parse_attempt, production, tree_of};
use crate::grammar::step::Step;
use crate::grammar::{declarations, literals, members, names, types};
use crate::nesting::forest::{forest, nested};
use crate::rule::Rule;
use crate::tree::NodeView;

verus! {

/// Whether the attempt `st` for `rule`, made at `p`, leaves the node of
/// `rule` in front of its nodes, spanning the match and counting them all.
pub open spec fn rooted(rule: Rule, p: int, st: Step) -> bool {
    st.ok ==> st.nodes.len() > 0 && st.nodes[0] == (NodeView {
        rule,
        start: p,
        end: st.end,
        size: st.nodes.len() as int,
    })
}

/// Whether `nodes` is the syntax tree of a text of `len` bytes parsed as
/// `rule`: the first node is the root, a node of `rule` that starts at 0
/// and counts every node; every node spans something; and the spans of
/// the nodes lie inside one another as the nodes do, those of the children
/// of one node one after the other in the order of the text, none
/// overlapping the next.
pub open spec fn well_formed(nodes: Seq<NodeView>, rule: Rule, len: int) -> bool {
    &&& nodes.len() > 0
    &&& nodes[0].rule == rule
    &&& nodes[0].start == 0
    &&& nodes[0].size == nodes.len()
    &&& rule.allows_trailing() || nodes[0].end == len
    &&& solid(nodes)
    &&& forest(nodes, 0, len)
}

/// `class_decl` leaves its own node in front of what it leaves.
proof fn lemma_class_decl_rooted(s: Seq<u8>, p: int)
    ensures
        rooted(Rule::ClassDecl, p, declarations::class_decl(s, p)),
{
    reveal(declarations::class_decl);
}

/// `module_decl` leaves its own node in front of what it leaves.
proof fn lemma_module_decl_rooted(s: Seq<u8>, p: int)
    ensures
        rooted(Rule::ModuleDecl, p, declarations::module_decl(s, p)),
{
    reveal(declarations::module_decl);
}

/// `const_decl` leaves its own node in front of what it leaves.
proof fn lemma_const_decl_rooted(s: Seq<u8>, p: int)
    ensures
        rooted(Rule::ConstDecl, p, declarations::const_decl(s, p)),
{
    reveal(declarations::const_decl);
}

/// `type_params` leaves its own node in front of what it leaves.
proof fn lemma_type_params_rooted(s: Seq<u8>, p: int)
    ensures
        rooted(Rule::TypeParams, p, declarations::type_params(s, p)),
{
    reveal(declarations::type_params);
}

/// `type_param` leaves its own node in front of what it leaves.
proof fn lemma_type_param_rooted(s: Seq<u8>, p: int)
    ensures
        rooted(Rule::TypeParam, p, declarations::type_param(s, p)),
{
    reveal(declarations::type_param);
}

/// `unchecked` leaves its own node in front of what it leaves.
proof fn lemma_unchecked_rooted(s: Seq<u8>, p: int)
    ensures
        rooted(Rule::Unchecked, p, declarations::unchecked(s, p)),
{
    reveal(declarations::unchecked);
}

/// `variance_out` leaves its own node in front of what it leaves.
proof fn lemma_variance_out_rooted(s: Seq<u8>, p: int)
    ensures
        rooted(Rule::VarianceOut, p, declarations::variance_out(s, p)),
{
    reveal(declarations::variance_out);
}

/// `variance_in` leaves its own node in front of what it leaves.
proof fn lemma_variance_in_rooted(s: Seq<u8>, p: int)
    ensures
        rooted(Rule::VarianceIn, p, declarations::variance_in(s, p)),
{
    reveal(declarations::variance_in);
}

/// `type_param_name` leaves its own node in front of what it leaves.
proof fn lemma_type_param_name_rooted(s: Seq<u8>, p: int)
    ensures
        rooted(Rule::TypeParamName, p, declarations::type_param_name(s, p)),
{
    reveal(declarations::type_param_name);
}

/// `super_class` leaves its own node in front of what it leaves.
proof fn lemma_super_class_rooted(s: Seq<u8>, p: int)
    ensures
        rooted(Rule::SuperClass, p, declarations::super_class(s, p)),
{
    reveal(declarations::super_class);
}

/// `self_types` leaves its own node in front of what it leaves.
proof fn lemma_self_types_rooted(s: Seq<u8>, p: int)
    ensures
        rooted(Rule::SelfTypes, p, declarations::self_types(s, p)),
{
    reveal(declarations::self_types);
}

/// `member_method` leaves its own node in front of what it leaves.
proof fn lemma_member_method_rooted(s: Seq<u8>, p: int)
    ensures
        rooted(Rule::MemberMethod, p, members::member_method(s, p)),
{
    reveal(members::member_method);
}

/// `member_alias` leaves its own node in front of what it leaves.
proof fn lemma_member_alias_rooted(s: Seq<u8>, p: int)
    ensures
        rooted(Rule::MemberAlias, p, members::member_alias(s, p)),
{
    reveal(members::member_alias);
}

/// `member_attribute` leaves its own node in front of what it leaves.
proof fn lemma_member_attribute_rooted(s: Seq<u8>, p: int)
    ensures
        rooted(Rule::MemberAttribute, p, members::member_attribute(s, p)),
{
    reveal(members::member_attribute);
}

/// `member_include` leaves its own node in front of what it leaves.
proof fn lemma_member_include_rooted(s: Seq<u8>, p: int)
    ensures
        rooted(Rule::MemberInclude, p, members::member_include(s, p)),
{
    reveal(members::member_include);
}

/// `member_extend` leaves its own node in front of what it leaves.
proof fn lemma_member_extend_rooted(s: Seq<u8>, p: int)
    ensures
        rooted(Rule::MemberExtend, p, members::member_extend(s, p)),
{
    reveal(members::member_extend);
}

/// `receiver_self` leaves its own node in front of what it leaves.
proof fn lemma_receiver_self_rooted(s: Seq<u8>, p: int)
    ensures
        rooted(Rule::ReceiverSelf, p, members::receiver_self(s, p)),
{
    reveal(members::receiver_self);
}

/// `receiver_self_or_instance` leaves its own node in front of what it leaves.
proof fn lemma_receiver_self_or_instance_rooted(s: Seq<u8>, p: int)
    ensures
        rooted(Rule::ReceiverSelfOrInstance, p, members::receiver_self_or_instance(s, p)),
{
    reveal(members::receiver_self_or_instance);
}

/// `method_name` leaves its own node in front of what it leaves.
proof fn lemma_method_name_rooted(s: Seq<u8>, p: int)
    ensures
        rooted(Rule::MethodName, p, members::method_name(s, p)),
{
    reveal(members::method_name);
}

/// `method_type` leaves its own node in front of what it leaves.
proof fn lemma_method_type_rooted(s: Seq<u8>, p: int)
    ensures
        rooted(Rule::MethodType, p, members::method_type(s, p)),
{
    reveal(members::method_type);
}

/// `params` leaves its own node in front of what it leaves.
proof fn lemma_params_rooted(s: Seq<u8>, p: int)
    ensures
        rooted(Rule::Params, p, members::params(s, p)),
{
    reveal(members::params);
}

/// `method_ref` leaves its own node in front of what it leaves.
proof fn lemma_method_ref_rooted(s: Seq<u8>, p: int)
    ensures
        rooted(Rule::MethodRef, p, members::method_ref(s, p)),
{
    reveal(members::method_ref);
}

/// `attr_reader` leaves its own node in front of what it leaves.
proof fn lemma_attr_reader_rooted(s: Seq<u8>, p: int)
    ensures
        rooted(Rule::AttrReader, p, members::attr_reader(s, p)),
{
    reveal(members::attr_reader);
}

/// `attr_writer` leaves its own node in front of what it leaves.
proof fn lemma_attr_writer_rooted(s: Seq<u8>, p: int)
    ensures
        rooted(Rule::AttrWriter, p, members::attr_writer(s, p)),
{
    reveal(members::attr_writer);
}

/// `attr_accessor` leaves its own node in front of what it leaves.
proof fn lemma_attr_accessor_rooted(s: Seq<u8>, p: int)
    ensures
        rooted(Rule::AttrAccessor, p, members::attr_accessor(s, p)),
{
    reveal(members::attr_accessor);
}

/// `attribute_name` leaves its own node in front of what it leaves.
proof fn lemma_attribute_name_rooted(s: Seq<u8>, p: int)
    ensures
        rooted(Rule::AttributeName, p, members::attribute_name(s, p)),
{
    reveal(members::attribute_name);
}

/// `ivar_clause` leaves its own node in front of what it leaves.
proof fn lemma_ivar_clause_rooted(s: Seq<u8>, p: int)
    ensures
        rooted(Rule::IvarClause, p, members::ivar_clause(s, p)),
{
    reveal(members::ivar_clause);
}

/// `ivar_name` leaves its own node in front of what it leaves.
proof fn lemma_ivar_name_rooted(s: Seq<u8>, p: int)
    ensures
        rooted(Rule::IvarName, p, members::ivar_name(s, p)),
{
    reveal(members::ivar_name);
}

/// `type_expr` leaves its own node in front of what it leaves.
proof fn lemma_type_expr_rooted(s: Seq<u8>, p: int)
    ensures
        rooted(Rule::Type, p, types::type_expr(s, p)),
{
    reveal_with_fuel(types::type_expr, 1);
}

/// `type_class_instance_name` leaves its own node in front of what it leaves.
proof fn lemma_type_class_instance_name_rooted(s: Seq<u8>, p: int)
    ensures
        rooted(Rule::TypeClassInstanceName, p, types::type_class_instance_name(s, p)),
{
    reveal_with_fuel(types::type_class_instance_name, 1);
}

/// `type_interface_name` leaves its own node in front of what it leaves.
proof fn lemma_type_interface_name_rooted(s: Seq<u8>, p: int)
    ensures
        rooted(Rule::TypeInterfaceName, p, types::type_interface_name(s, p)),
{
    reveal_with_fuel(types::type_interface_name, 1);
}

/// `type_alias_name` leaves its own node in front of what it leaves.
proof fn lemma_type_alias_name_rooted(s: Seq<u8>, p: int)
    ensures
        rooted(Rule::TypeAliasName, p, types::type_alias_name(s, p)),
{
    reveal_with_fuel(types::type_alias_name, 1);
}

/// `type_singleton_class_name` leaves its own node in front of what it leaves.
proof fn lemma_type_singleton_class_name_rooted(s: Seq<u8>, p: int)
    ensures
        rooted(Rule::TypeSingletonClassName, p, types::type_singleton_class_name(s, p)),
{
    reveal(types::type_singleton_class_name);
}

/// `type_arguments` leaves its own node in front of what it leaves.
proof fn lemma_type_arguments_rooted(s: Seq<u8>, p: int)
    ensures
        rooted(Rule::TypeArguments, p, types::type_arguments(s, p)),
{
    reveal_with_fuel(types::type_arguments, 1);
}

/// `class_name` leaves its own node in front of what it leaves.
proof fn lemma_class_name_rooted(s: Seq<u8>, p: int)
    ensures
        rooted(Rule::ClassName, p, names::class_name(s, p)),
{
    reveal(names::class_name);
}

/// `interface_name` leaves its own node in front of what it leaves.
proof fn lemma_interface_name_rooted(s: Seq<u8>, p: int)
    ensures
        rooted(Rule::InterfaceName, p, names::interface_name(s, p)),
{
    reveal(names::interface_name);
}

/// `alias_name` leaves its own node in front of what it leaves.
proof fn lemma_alias_name_rooted(s: Seq<u8>, p: int)
    ensures
        rooted(Rule::AliasName, p, names::alias_name(s, p)),
{
    reveal(names::alias_name);
}

/// `const_name` leaves its own node in front of what it leaves.
proof fn lemma_const_name_rooted(s: Seq<u8>, p: int)
    ensures
        rooted(Rule::ConstName, p, names::const_name(s, p)),
{
    reveal(names::const_name);
}

/// `literal_value` leaves its own node in front of what it leaves.
proof fn lemma_literal_value_rooted(s: Seq<u8>, p: int)
    ensures
        rooted(Rule::Literal, p, literals::literal_value(s, p)),
{
    reveal(literals::literal_value);
}

/// `literal_string` leaves its own node in front of what it leaves.
proof fn lemma_literal_string_rooted(s: Seq<u8>, p: int)
    ensures
        rooted(Rule::LiteralString, p, literals::literal_string(s, p)),
{
    reveal(literals::literal_string);
}

/// `literal_symbol` leaves its own node in front of what it leaves.
proof fn lemma_literal_symbol_rooted(s: Seq<u8>, p: int)
    ensures
        rooted(Rule::LiteralSymbol, p, literals::literal_symbol(s, p)),
{
    reveal(literals::literal_symbol);
}

/// `literal_integer` leaves its own node in front of what it leaves.
proof fn lemma_literal_integer_rooted(s: Seq<u8>, p: int)
    ensures
        rooted(Rule::LiteralInteger, p, literals::literal_integer(s, p)),
{
    reveal(literals::literal_integer);
}

/// `single_quoted_string` leaves its own node in front of what it leaves.
proof fn lemma_single_quoted_string_rooted(s: Seq<u8>, p: int)
    ensures
        rooted(Rule::SingleQuotedString, p, literals::single_quoted_string(s, p)),
{
    reveal(literals::single_quoted_string);
}

/// `double_quoted_string` leaves its own node in front of what it leaves.
proof fn lemma_double_quoted_string_rooted(s: Seq<u8>, p: int)
    ensures
        rooted(Rule::DoubleQuotedString, p, literals::double_quoted_string(s, p)),
{
    reveal(literals::double_quoted_string);
}

/// `escape` leaves its own node in front of what it leaves.
proof fn lemma_escape_rooted(s: Seq<u8>, p: int)
    ensures
        rooted(Rule::Escape, p, literals::escape(s, p)),
{
}

/// `literal_boolean` leaves its own node in front of what it leaves.
proof fn lemma_literal_boolean_rooted(s: Seq<u8>, p: int)
    ensures
        rooted(Rule::LiteralBoolean, p, literals::literal_boolean(s, p)),
{
    reveal(literals::literal_boolean);
}

/// Every production that matches leaves its own node in front.
pub proof fn lemma_production_rooted(rule: Rule, s: Seq<u8>, p: int)
    ensures
        rooted(rule, p, production(rule, s, p)),
{
    match rule {
        Rule::ClassDecl => {
            lemma_class_decl_rooted(s, p);
        },
        Rule::ModuleDecl => {
            lemma_module_decl_rooted(s, p);
        },
        Rule::ConstDecl => {
            lemma_const_decl_rooted(s, p);
        },
        Rule::TypeParams => {
            lemma_type_params_rooted(s, p);
        },
        Rule::TypeParam => {
            lemma_type_param_rooted(s, p);
        },
        Rule::Unchecked => {
            lemma_unchecked_rooted(s, p);
        },
        Rule::VarianceOut => {
            lemma_variance_out_rooted(s, p);
        },
        Rule::VarianceIn => {
            lemma_variance_in_rooted(s, p);
        },
        Rule::TypeParamName => {
            lemma_type_param_name_rooted(s, p);
        },
        Rule::SuperClass => {
            lemma_super_class_rooted(s, p);
        },
        Rule::SelfTypes => {
            lemma_self_types_rooted(s, p);
        },
        Rule::MemberMethod => {
            lemma_member_method_rooted(s, p);
        },
        Rule::MemberAlias => {
            lemma_member_alias_rooted(s, p);
        },
        Rule::MemberAttribute => {
            lemma_member_attribute_rooted(s, p);
        },
        Rule::MemberInclude => {
            lemma_member_include_rooted(s, p);
        },
        Rule::MemberExtend => {
            lemma_member_extend_rooted(s, p);
        },
        Rule::ReceiverSelf => {
            lemma_receiver_self_rooted(s, p);
        },
        Rule::ReceiverSelfOrInstance => {
            lemma_receiver_self_or_instance_rooted(s, p);
        },
        Rule::MethodName => {
            lemma_method_name_rooted(s, p);
        },
        Rule::MethodType => {
            lemma_method_type_rooted(s, p);
        },
        Rule::Params => {
            lemma_params_rooted(s, p);
        },
        Rule::MethodRef => {
            lemma_method_ref_rooted(s, p);
        },
        Rule::AttrReader => {
            lemma_attr_reader_rooted(s, p);
        },
        Rule::AttrWriter => {
            lemma_attr_writer_rooted(s, p);
        },
        Rule::AttrAccessor => {
            lemma_attr_accessor_rooted(s, p);
        },
        Rule::AttributeName => {
            lemma_attribute_name_rooted(s, p);
        },
        Rule::IvarClause => {
            lemma_ivar_clause_rooted(s, p);
        },
        Rule::IvarName => {
            lemma_ivar_name_rooted(s, p);
        },
        Rule::Type => {
            lemma_type_expr_rooted(s, p);
        },
        Rule::TypeClassInstanceName => {
            lemma_type_class_instance_name_rooted(s, p);
        },
        Rule::TypeInterfaceName => {
            lemma_type_interface_name_rooted(s, p);
        },
        Rule::TypeAliasName => {
            lemma_type_alias_name_rooted(s, p);
        },
        Rule::TypeSingletonClassName => {
            lemma_type_singleton_class_name_rooted(s, p);
        },
        Rule::TypeArguments => {
            lemma_type_arguments_rooted(s, p);
        },
        Rule::ClassName => {
            lemma_class_name_rooted(s, p);
        },
        Rule::InterfaceName => {
            lemma_interface_name_rooted(s, p);
        },
        Rule::AliasName => {
            lemma_alias_name_rooted(s, p);
        },
        Rule::ConstName => {
            lemma_const_name_rooted(s, p);
        },
        Rule::Literal => {
            lemma_literal_value_rooted(s, p);
        },
        Rule::LiteralString => {
            lemma_literal_string_rooted(s, p);
        },
        Rule::LiteralSymbol => {
            lemma_literal_symbol_rooted(s, p);
        },
        Rule::LiteralInteger => {
            lemma_literal_integer_rooted(s, p);
        },
        Rule::SingleQuotedString => {
            lemma_single_quoted_string_rooted(s, p);
        },
        Rule::DoubleQuotedString => {
            lemma_double_quoted_string_rooted(s, p);
        },
        Rule::Escape => {
            lemma_escape_rooted(s, p);
        },
        Rule::LiteralBoolean => {
            lemma_literal_boolean_rooted(s, p);
        },
    }
}

/// Every production that matches ends within the input and leaves a forest.
pub proof fn lemma_production_nested(rule: Rule, s: Seq<u8>, p: int)
    requires
        0 <= p <= s.len(),
    ensures
        nested(s, p, production(rule, s, p)),
{
    match rule {
        Rule::ClassDecl => {
            crate::nesting::declarations::lemma_class_decl_nested(s, p);
        },
        Rule::ModuleDecl => {
            crate::nesting::declarations::lemma_module_decl_nested(s, p);
        },
        Rule::ConstDecl => {
            crate::nesting::declarations::lemma_const_decl_nested(s, p);
        },
        Rule::TypeParams => {
            crate::nesting::declarations::lemma_type_params_nested(s, p);
        },
        Rule::TypeParam => {
            crate::nesting::declarations::lemma_type_param_nested(s, p);
        },
        Rule::Unchecked => {
            crate::nesting::declarations::lemma_unchecked_nested(s, p);
        },
        Rule::VarianceOut => {
            crate::nesting::declarations::lemma_variance_out_nested(s, p);
        },
        Rule::VarianceIn => {
            crate::nesting::declarations::lemma_variance_in_nested(s, p);
        },
        Rule::TypeParamName => {
            crate::nesting::declarations::lemma_type_param_name_nested(s, p);
        },
        Rule::SuperClass => {
            crate::nesting::declarations::lemma_super_class_nested(s, p);
        },
        Rule::SelfTypes => {
            crate::nesting::declarations::lemma_self_types_nested(s, p);
        },
        Rule::MemberMethod => {
            crate::nesting::members::lemma_member_method_nested(s, p);
        },
        Rule::MemberAlias => {
            crate::nesting::members::lemma_member_alias_nested(s, p);
        },
        Rule::MemberAttribute => {
            crate::nesting::members::lemma_member_attribute_nested(s, p);
        },
        Rule::MemberInclude => {
            crate::nesting::members::lemma_member_include_nested(s, p);
        },
        Rule::MemberExtend => {
            crate::nesting::members::lemma_member_extend_nested(s, p);
        },
        Rule::ReceiverSelf => {
            crate::nesting::members::lemma_receiver_self_nested(s, p);
        },
        Rule::ReceiverSelfOrInstance => {
            crate::nesting::members::lemma_receiver_self_or_instance_nested(s, p);
        },
        Rule::MethodName => {
            crate::nesting::members::lemma_method_name_nested(s, p);
        },
        Rule::MethodType => {
            crate::nesting::members::lemma_method_type_nested(s, p);
        },
        Rule::Params => {
            crate::nesting::members::lemma_params_nested(s, p);
        },
        Rule::MethodRef => {
            crate::nesting::members::lemma_method_ref_nested(s, p);
        },
        Rule::AttrReader => {
            crate::nesting::members::lemma_attr_reader_nested(s, p);
        },
        Rule::AttrWriter => {
            crate::nesting::members::lemma_attr_writer_nested(s, p);
        },
        Rule::AttrAccessor => {
            crate::nesting::members::lemma_attr_accessor_nested(s, p);
        },
        Rule::AttributeName => {
            crate::nesting::members::lemma_attribute_name_nested(s, p);
        },
        Rule::IvarClause => {
            crate::nesting::members::lemma_ivar_clause_nested(s, p);
        },
        Rule::IvarName => {
            crate::nesting::members::lemma_ivar_name_nested(s, p);
        },
        Rule::Type => {
            crate::nesting::types::lemma_type_expr_nested(s, p);
        },
        Rule::TypeClassInstanceName => {
            crate::nesting::types::lemma_type_class_instance_name_nested(s, p);
        },
        Rule::TypeInterfaceName => {
            crate::nesting::types::lemma_type_interface_name_nested(s, p);
        },
        Rule::TypeAliasName => {
            crate::nesting::types::lemma_type_alias_name_nested(s, p);
        },
        Rule::TypeSingletonClassName => {
            crate::nesting::types::lemma_type_singleton_class_name_nested(s, p);
        },
        Rule::TypeArguments => {
            crate::nesting::types::lemma_type_arguments_nested(s, p);
        },
        Rule::ClassName => {
            crate::nesting::names::lemma_class_name_nested(s, p);
        },
        Rule::InterfaceName => {
            crate::nesting::names::lemma_interface_name_nested(s, p);
        },
        Rule::AliasName => {
            crate::nesting::names::lemma_alias_name_nested(s, p);
        },
        Rule::ConstName => {
            crate::nesting::names::lemma_const_name_nested(s, p);
        },
        Rule::Literal => {
            crate::nesting::literals::lemma_literal_value_nested(s, p);
        },
        Rule::LiteralString => {
            crate::nesting::literals::lemma_literal_string_nested(s, p);
        },
        Rule::LiteralSymbol => {
            crate::nesting::literals::lemma_literal_symbol_nested(s, p);
        },
        Rule::LiteralInteger => {
            crate::nesting::literals::lemma_literal_integer_nested(s, p);
        },
        Rule::SingleQuotedString => {
            crate::nesting::literals::lemma_single_quoted_string_nested(s, p);
        },
        Rule::DoubleQuotedString => {
            crate::nesting::literals::lemma_double_quoted_string_nested(s, p);
        },
        Rule::Escape => {
            crate::nesting::literals::lemma_escape_nested(s, p);
        },
        Rule::LiteralBoolean => {
            crate::nesting::literals::lemma_literal_boolean_nested(s, p);
        },
    }
}

/// The tree of an accepted input is well formed.
pub proof fn lemma_tree_well_formed(rule: Rule, s: Seq<u8>)
    requires
        accepts(rule, s),
    ensures
        well_formed(tree_of(rule, s), rule, s.len() as int),
{
    let st = production(rule, s, 0);
    lemma_production_rooted(rule, s, 0);
    lemma_production_nested(rule, s, 0);
    crate::firmness::rules::lemma_production_firm(rule, s, 0);
    assert(parse_attempt(rule, s).nodes =~= st.nodes);
    crate::nesting::forest::lemma_forest_widen(st.nodes, 0, st.end, 0, s.len() as int);
}

} // verus!
