use vstd::prelude::*;
use vstd::string::StringSliceAdditionalSpecFns;
use crate::context::Context;
use crate::grammar::lexical::{Class, AT, COLON, DOT, LEFT_PAREN, QUESTION, RIGHT_PAREN};
use crate::grammar::members;
use crate::parser::{parsed, RbsParser};
use crate::rule::Rule;
use crate::tree::{SyntaxError, SyntaxTree};

verus! {

impl<'input> Context<'input> {
    /// The receiver `self.`: white space may stand in front of the dot.
    pub fn receiver_self(&mut self) -> (ok: bool)
        requires
            old(self).wf(),
        ensures
            final(self).follows(
                old(self),
                ok,
                members::receiver_self(old(self).bytes(), old(self).at()),
            ),
    {
        proof {
            reveal(members::receiver_self);
        }
        let m = self.open();
        if !self.keyword("self") {
            return self.rewind(m);
        }
        self.trivia();
        if !self.byte(DOT) {
            return self.rewind(m);
        }
        self.close(Rule::ReceiverSelf, m)
    }

    /// The receiver `self?.`: white space may stand around the question mark.
    pub fn receiver_self_or_instance(&mut self) -> (ok: bool)
        requires
            old(self).wf(),
        ensures
            final(self).follows(
                old(self),
                ok,
                members::receiver_self_or_instance(old(self).bytes(), old(self).at()),
            ),
    {
        proof {
            reveal(members::receiver_self_or_instance);
        }
        let m = self.open();
        if !self.keyword("self") {
            return self.rewind(m);
        }
        self.trivia();
        if !self.byte(QUESTION) {
            return self.rewind(m);
        }
        self.trivia();
        if !self.byte(DOT) {
            return self.rewind(m);
        }
        self.close(Rule::ReceiverSelfOrInstance, m)
    }

    /// A receiver and the white space behind it; the part of a method member
    /// that may be missing.
    pub fn spaced_receiver(&mut self) -> (ok: bool)
        requires
            old(self).wf(),
        ensures
            final(self).follows(
                old(self),
                ok,
                members::spaced_receiver(old(self).bytes(), old(self).at()),
            ),
    {
        proof {
            reveal(members::spaced_receiver);
        }
        let m = self.mark();
        if !(self.receiver_self_or_instance() || self.receiver_self()) {
            return self.rewind(m);
        }
        self.trivia();
        true
    }

    /// The receiver `self.` and the white space behind it; the part of an
    /// operand of `alias` that may be missing.
    pub fn spaced_receiver_self(&mut self) -> (ok: bool)
        requires
            old(self).wf(),
        ensures
            final(self).follows(
                old(self),
                ok,
                members::spaced_receiver_self(old(self).bytes(), old(self).at()),
            ),
    {
        proof {
            reveal(members::spaced_receiver_self);
        }
        let m = self.mark();
        if !self.receiver_self() {
            return self.rewind(m);
        }
        self.trivia();
        true
    }

    /// A method name: a lower-case identifier and, optionally, one of `?`, `!`
    /// and `=`.
    pub fn method_name(&mut self) -> (ok: bool)
        requires
            old(self).wf(),
        ensures
            final(self).follows(
                old(self),
                ok,
                members::method_name(old(self).bytes(), old(self).at()),
            ),
    {
        proof {
            reveal(members::method_name);
        }
        let m = self.open();
        if !self.lower_ident() {
            return self.rewind(m);
        }
        self.one(Class::Suffix);
        self.close(Rule::MethodName, m)
    }

    /// The types of a parameter list, and the white space behind them.
    pub fn spaced_type_list(&mut self) -> (ok: bool)
        requires
            old(self).wf(),
        ensures
            final(self).follows(
                old(self),
                ok,
                members::spaced_type_list(old(self).bytes(), old(self).at()),
            ),
    {
        proof {
            reveal(members::spaced_type_list);
        }
        let m = self.mark();
        if !self.type_list() {
            return self.rewind(m);
        }
        self.trivia();
        true
    }

    /// A parameter list: parentheses around types between commas, or around
    /// nothing.
    pub fn params(&mut self) -> (ok: bool)
        requires
            old(self).wf(),
        ensures
            final(self).follows(
                old(self),
                ok,
                members::params(old(self).bytes(), old(self).at()),
            ),
    {
        proof {
            reveal(members::params);
        }
        let m = self.open();
        if !self.byte(LEFT_PAREN) {
            return self.rewind(m);
        }
        self.trivia();
        self.spaced_type_list();
        if !self.byte(RIGHT_PAREN) {
            return self.rewind(m);
        }
        self.close(Rule::Params, m)
    }

    /// A method type: a parameter list, `->` and the type returned.
    pub fn method_type(&mut self) -> (ok: bool)
        requires
            old(self).wf(),
        ensures
            final(self).follows(
                old(self),
                ok,
                members::method_type(old(self).bytes(), old(self).at()),
            ),
    {
        proof {
            reveal(members::method_type);
        }
        let m = self.open();
        if !self.params() {
            return self.rewind(m);
        }
        self.trivia();
        if !self.literal("->") {
            return self.rewind(m);
        }
        self.trivia();
        if !self.type_expr() {
            return self.rewind(m);
        }
        self.close(Rule::MethodType, m)
    }

    /// A method member: `def`, an optional receiver, the name, `:` and the
    /// method type.
    pub fn member_method(&mut self) -> (ok: bool)
        requires
            old(self).wf(),
        ensures
            final(self).follows(
                old(self),
                ok,
                members::member_method(old(self).bytes(), old(self).at()),
            ),
    {
        proof {
            reveal(members::member_method);
        }
        let m = self.open();
        if !self.keyword("def") {
            return self.rewind(m);
        }
        self.trivia();
        self.spaced_receiver();
        if !self.method_name() {
            return self.rewind(m);
        }
        self.trivia();
        if !self.byte(COLON) {
            return self.rewind(m);
        }
        self.trivia();
        if !self.method_type() {
            return self.rewind(m);
        }
        self.close(Rule::MemberMethod, m)
    }

    /// One operand of `alias`: a method name, optionally behind `self.`.
    pub fn method_ref(&mut self) -> (ok: bool)
        requires
            old(self).wf(),
        ensures
            final(self).follows(
                old(self),
                ok,
                members::method_ref(old(self).bytes(), old(self).at()),
            ),
    {
        proof {
            reveal(members::method_ref);
        }
        let m = self.open();
        self.spaced_receiver_self();
        if !self.method_name() {
            return self.rewind(m);
        }
        self.close(Rule::MethodRef, m)
    }

    /// An alias member: `alias`, the new name and the old one.
    pub fn member_alias(&mut self) -> (ok: bool)
        requires
            old(self).wf(),
        ensures
            final(self).follows(
                old(self),
                ok,
                members::member_alias(old(self).bytes(), old(self).at()),
            ),
    {
        proof {
            reveal(members::member_alias);
        }
        let m = self.open();
        if !self.keyword("alias") {
            return self.rewind(m);
        }
        self.trivia();
        if !self.method_ref() {
            return self.rewind(m);
        }
        self.trivia();
        if !self.method_ref() {
            return self.rewind(m);
        }
        self.close(Rule::MemberAlias, m)
    }

    /// The keyword `attr_reader`.
    pub fn attr_reader(&mut self) -> (ok: bool)
        requires
            old(self).wf(),
        ensures
            final(self).follows(
                old(self),
                ok,
                members::attr_reader(old(self).bytes(), old(self).at()),
            ),
    {
        proof {
            reveal(members::attr_reader);
        }
        let m = self.open();
        if !self.keyword("attr_reader") {
            return self.rewind(m);
        }
        self.close(Rule::AttrReader, m)
    }

    /// The keyword `attr_writer`.
    pub fn attr_writer(&mut self) -> (ok: bool)
        requires
            old(self).wf(),
        ensures
            final(self).follows(
                old(self),
                ok,
                members::attr_writer(old(self).bytes(), old(self).at()),
            ),
    {
        proof {
            reveal(members::attr_writer);
        }
        let m = self.open();
        if !self.keyword("attr_writer") {
            return self.rewind(m);
        }
        self.close(Rule::AttrWriter, m)
    }

    /// The keyword `attr_accessor`.
    pub fn attr_accessor(&mut self) -> (ok: bool)
        requires
            old(self).wf(),
        ensures
            final(self).follows(
                old(self),
                ok,
                members::attr_accessor(old(self).bytes(), old(self).at()),
            ),
    {
        proof {
            reveal(members::attr_accessor);
        }
        let m = self.open();
        if !self.keyword("attr_accessor") {
            return self.rewind(m);
        }
        self.close(Rule::AttrAccessor, m)
    }

    /// One of the three keywords that start an attribute member.
    pub fn attribute_kind(&mut self) -> (ok: bool)
        requires
            old(self).wf(),
        ensures
            final(self).follows(
                old(self),
                ok,
                members::attribute_kind(old(self).bytes(), old(self).at()),
            ),
    {
        proof {
            reveal(members::attribute_kind);
        }
        if self.attr_reader() {
            return true;
        }
        if self.attr_writer() {
            return true;
        }
        self.attr_accessor()
    }

    /// The name of an attribute: a lower-case identifier.
    pub fn attribute_name(&mut self) -> (ok: bool)
        requires
            old(self).wf(),
        ensures
            final(self).follows(
                old(self),
                ok,
                members::attribute_name(old(self).bytes(), old(self).at()),
            ),
    {
        proof {
            reveal(members::attribute_name);
        }
        let m = self.open();
        if !self.lower_ident() {
            return self.rewind(m);
        }
        self.close(Rule::AttributeName, m)
    }

    /// The name of an instance variable: `@`, a letter or `_`, and what
    /// continues the identifier.
    pub fn ivar_name(&mut self) -> (ok: bool)
        requires
            old(self).wf(),
        ensures
            final(self).follows(
                old(self),
                ok,
                members::ivar_name(old(self).bytes(), old(self).at()),
            ),
    {
        proof {
            reveal(members::ivar_name);
        }
        let m = self.open();
        if !self.byte(AT) {
            return self.rewind(m);
        }
        if !self.one(Class::IdentStart) {
            return self.rewind(m);
        }
        self.run(Class::Word);
        self.close(Rule::IvarName, m)
    }

    /// The name of an instance variable and the white space behind it.
    pub fn spaced_ivar_name(&mut self) -> (ok: bool)
        requires
            old(self).wf(),
        ensures
            final(self).follows(
                old(self),
                ok,
                members::spaced_ivar_name(old(self).bytes(), old(self).at()),
            ),
    {
        proof {
            reveal(members::spaced_ivar_name);
        }
        let m = self.mark();
        if !self.ivar_name() {
            return self.rewind(m);
        }
        self.trivia();
        true
    }

    /// The instance-variable clause of an attribute: parentheses around the
    /// name of an instance variable, or around nothing.
    pub fn ivar_clause(&mut self) -> (ok: bool)
        requires
            old(self).wf(),
        ensures
            final(self).follows(
                old(self),
                ok,
                members::ivar_clause(old(self).bytes(), old(self).at()),
            ),
    {
        proof {
            reveal(members::ivar_clause);
        }
        let m = self.open();
        if !self.byte(LEFT_PAREN) {
            return self.rewind(m);
        }
        self.trivia();
        self.spaced_ivar_name();
        if !self.byte(RIGHT_PAREN) {
            return self.rewind(m);
        }
        self.close(Rule::IvarClause, m)
    }

    /// White space and an instance-variable clause; the part of an attribute
    /// member that may be missing.
    pub fn spaced_ivar_clause(&mut self) -> (ok: bool)
        requires
            old(self).wf(),
        ensures
            final(self).follows(
                old(self),
                ok,
                members::spaced_ivar_clause(old(self).bytes(), old(self).at()),
            ),
    {
        proof {
            reveal(members::spaced_ivar_clause);
        }
        let m = self.mark();
        self.trivia();
        if !self.ivar_clause() {
            return self.rewind(m);
        }
        true
    }

    /// An attribute member: one of the three keywords, the name, an optional
    /// instance-variable clause, `:` and the type.
    pub fn member_attribute(&mut self) -> (ok: bool)
        requires
            old(self).wf(),
        ensures
            final(self).follows(
                old(self),
                ok,
                members::member_attribute(old(self).bytes(), old(self).at()),
            ),
    {
        proof {
            reveal(members::member_attribute);
        }
        let m = self.open();
        if !self.attribute_kind() {
            return self.rewind(m);
        }
        self.trivia();
        if !self.attribute_name() {
            return self.rewind(m);
        }
        self.spaced_ivar_clause();
        self.trivia();
        if !self.byte(COLON) {
            return self.rewind(m);
        }
        self.trivia();
        if !self.type_expr() {
            return self.rewind(m);
        }
        self.close(Rule::MemberAttribute, m)
    }

    /// What `include` and `extend` take: an interface or a class, with
    /// optional type arguments.
    pub fn mixin_target(&mut self) -> (ok: bool)
        requires
            old(self).wf(),
        ensures
            final(self).follows(
                old(self),
                ok,
                members::mixin_target(old(self).bytes(), old(self).at()),
            ),
    {
        proof {
            reveal(members::mixin_target);
        }
        if self.type_interface_name() {
            return true;
        }
        self.type_class_instance_name()
    }

    /// An include member: `include` and an interface or a class.
    pub fn member_include(&mut self) -> (ok: bool)
        requires
            old(self).wf(),
        ensures
            final(self).follows(
                old(self),
                ok,
                members::member_include(old(self).bytes(), old(self).at()),
            ),
    {
        proof {
            reveal(members::member_include);
        }
        let m = self.open();
        if !self.keyword("include") {
            return self.rewind(m);
        }
        self.trivia();
        if !self.mixin_target() {
            return self.rewind(m);
        }
        self.close(Rule::MemberInclude, m)
    }

    /// An extend member: `extend` and an interface or a class.
    pub fn member_extend(&mut self) -> (ok: bool)
        requires
            old(self).wf(),
        ensures
            final(self).follows(
                old(self),
                ok,
                members::member_extend(old(self).bytes(), old(self).at()),
            ),
    {
        proof {
            reveal(members::member_extend);
        }
        let m = self.open();
        if !self.keyword("extend") {
            return self.rewind(m);
        }
        self.trivia();
        if !self.mixin_target() {
            return self.rewind(m);
        }
        self.close(Rule::MemberExtend, m)
    }

    /// Any member: a method, an alias, an attribute, an include or an extend,
    /// tried in this order.
    pub fn member(&mut self) -> (ok: bool)
        requires
            old(self).wf(),
        ensures
            final(self).follows(
                old(self),
                ok,
                members::member(old(self).bytes(), old(self).at()),
            ),
    {
        proof {
            reveal(members::member);
        }
        if self.member_method() {
            return true;
        }
        if self.member_alias() {
            return true;
        }
        if self.member_attribute() {
            return true;
        }
        if self.member_include() {
            return true;
        }
        self.member_extend()
    }
}

/// Parses the whole of `source` as a method member.
pub fn parse_method(source: &str) -> (r: Result<SyntaxTree, SyntaxError>)
    ensures
        parsed(r, Rule::MemberMethod, source.spec_bytes()),
{
    RbsParser::parse(Rule::MemberMethod, source)
}

/// Parses the whole of `source` as an alias member.
pub fn parse_alias(source: &str) -> (r: Result<SyntaxTree, SyntaxError>)
    ensures
        parsed(r, Rule::MemberAlias, source.spec_bytes()),
{
    RbsParser::parse(Rule::MemberAlias, source)
}

/// Parses the whole of `source` as an attribute member.
pub fn parse_attribute(source: &str) -> (r: Result<SyntaxTree, SyntaxError>)
    ensures
        parsed(r, Rule::MemberAttribute, source.spec_bytes()),
{
    RbsParser::parse(Rule::MemberAttribute, source)
}

/// Parses the whole of `source` as an include member.
pub fn parse_include(source: &str) -> (r: Result<SyntaxTree, SyntaxError>)
    ensures
        parsed(r, Rule::MemberInclude, source.spec_bytes()),
{
    RbsParser::parse(Rule::MemberInclude, source)
}

/// Parses the whole of `source` as an extend member.
pub fn parse_extend(source: &str) -> (r: Result<SyntaxTree, SyntaxError>)
    ensures
        parsed(r, Rule::MemberExtend, source.spec_bytes()),
{
    RbsParser::parse(Rule::MemberExtend, source)
}

} // verus!
