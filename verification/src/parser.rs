use vstd::prelude::*;
use vstd::string::StringSliceAdditionalSpecFns;
use crate::context::Context;
use crate::grammar::rules;
use crate::nesting::rules::{lemma_tree_well_formed, well_formed};
use crate::rule::Rule;
use crate::tree::{SyntaxError, SyntaxTree};

verus! {

impl<'input> Context<'input> {
    /// The production that leaves a node for `rule`.
    pub fn production(&mut self, rule: Rule) -> (ok: bool)
        requires
            old(self).wf(),
        ensures
            final(self).follows(
                old(self),
                ok,
                rules::production(rule, old(self).bytes(), old(self).at()),
            ),
    {
        match rule {
            Rule::ClassDecl => self.class_decl(),
            Rule::ModuleDecl => self.module_decl(),
            Rule::ConstDecl => self.const_decl(),
            Rule::TypeParams => self.type_params(),
            Rule::TypeParam => self.type_param(),
            Rule::Unchecked => self.unchecked(),
            Rule::VarianceOut => self.variance_out(),
            Rule::VarianceIn => self.variance_in(),
            Rule::TypeParamName => self.type_param_name(),
            Rule::SuperClass => self.super_class(),
            Rule::SelfTypes => self.self_types(),
            Rule::MemberMethod => self.member_method(),
            Rule::MemberAlias => self.member_alias(),
            Rule::MemberAttribute => self.member_attribute(),
            Rule::MemberInclude => self.member_include(),
            Rule::MemberExtend => self.member_extend(),
            Rule::ReceiverSelf => self.receiver_self(),
            Rule::ReceiverSelfOrInstance => self.receiver_self_or_instance(),
            Rule::MethodName => self.method_name(),
            Rule::MethodType => self.method_type(),
            Rule::Params => self.params(),
            Rule::MethodRef => self.method_ref(),
            Rule::AttrReader => self.attr_reader(),
            Rule::AttrWriter => self.attr_writer(),
            Rule::AttrAccessor => self.attr_accessor(),
            Rule::AttributeName => self.attribute_name(),
            Rule::IvarClause => self.ivar_clause(),
            Rule::IvarName => self.ivar_name(),
            Rule::Type => self.type_expr(),
            Rule::TypeClassInstanceName => self.type_class_instance_name(),
            Rule::TypeInterfaceName => self.type_interface_name(),
            Rule::TypeAliasName => self.type_alias_name(),
            Rule::TypeSingletonClassName => self.type_singleton_class_name(),
            Rule::TypeArguments => self.type_arguments(),
            Rule::ClassName => self.class_name(),
            Rule::InterfaceName => self.interface_name(),
            Rule::AliasName => self.alias_name(),
            Rule::ConstName => self.const_name(),
            Rule::Literal => self.literal_value(),
            Rule::LiteralString => self.literal_string(),
            Rule::LiteralSymbol => self.literal_symbol(),
            Rule::LiteralInteger => self.literal_integer(),
            Rule::SingleQuotedString => self.single_quoted_string(),
            Rule::DoubleQuotedString => self.double_quoted_string(),
            Rule::Escape => self.escape(),
            Rule::LiteralBoolean => self.literal_boolean(),
        }
    }
}

/// The entry point of the grammar: one parse of a whole text for one
/// production.
pub struct RbsParser;

impl RbsParser {
    /// Parses `source` as `rule`. The result is the syntax tree exactly
    /// when the grammar accepts `source` as `rule`; otherwise it is the
    /// error that names `rule` and the offset at which the parse got
    /// stuck.
    pub fn parse(rule: Rule, source: &str) -> (r: Result<SyntaxTree, SyntaxError>)
        ensures
            parsed(r, rule, source.spec_bytes()),
    {
        let mut ctx = Context::new(source);
        let mut ok = ctx.production(rule);
        if ok && !rule.allows_trailing() {
            ok = ctx.end_of_input();
        }
        if ok {
            proof {
                lemma_tree_well_formed(rule, source.spec_bytes());
            }
            Ok(SyntaxTree { nodes: ctx.nodes })
        } else {
            Err(SyntaxError { rule, offset: ctx.furthest })
        }
    }
}

/// What a parse of the input `s` for `rule` returns: the tree of `s`, which
/// is well formed, where `s` is accepted, and otherwise the error with
/// `rule` and the offset at which the parse got stuck.
pub open spec fn parsed(r: Result<SyntaxTree, SyntaxError>, rule: Rule, s: Seq<u8>) -> bool {
    match r {
        Ok(tree) => {
            &&& rules::accepts(rule, s)
            &&& tree@ == rules::tree_of(rule, s)
            &&& well_formed(tree@, rule, s.len() as int)
        },
        Err(e) => !rules::accepts(rule, s) && e.rule == rule && e.offset == rules::stuck_at(
            rule,
            s,
        ),
    }
}

} // verus!
