use vstd::prelude::*;
use vstd::string::StringSliceAdditionalSpecFns;
use crate::context::Context;
use crate::grammar::declarations;
use crate::grammar::lexical::{COLON, COMMA, LEFT_BRACKET, LESS, RIGHT_BRACKET};
use crate::parser::{parsed, RbsParser};
use crate::rule::Rule;
use crate::tree::{SyntaxError, SyntaxTree};

verus! {

impl<'input> Context<'input> {
    /// The modifier `unchecked`.
    pub fn unchecked(&mut self) -> (ok: bool)
        requires
            old(self).wf(),
        ensures
            final(self).follows(
                old(self),
                ok,
                declarations::unchecked(old(self).bytes(), old(self).at()),
            ),
    {
        proof {
            reveal(declarations::unchecked);
        }
        let m = self.open();
        if !self.keyword("unchecked") {
            return self.rewind(m);
        }
        self.close(Rule::Unchecked, m)
    }

    /// The modifier `out`.
    pub fn variance_out(&mut self) -> (ok: bool)
        requires
            old(self).wf(),
        ensures
            final(self).follows(
                old(self),
                ok,
                declarations::variance_out(old(self).bytes(), old(self).at()),
            ),
    {
        proof {
            reveal(declarations::variance_out);
        }
        let m = self.open();
        if !self.keyword("out") {
            return self.rewind(m);
        }
        self.close(Rule::VarianceOut, m)
    }

    /// The modifier `in`.
    pub fn variance_in(&mut self) -> (ok: bool)
        requires
            old(self).wf(),
        ensures
            final(self).follows(
                old(self),
                ok,
                declarations::variance_in(old(self).bytes(), old(self).at()),
            ),
    {
        proof {
            reveal(declarations::variance_in);
        }
        let m = self.open();
        if !self.keyword("in") {
            return self.rewind(m);
        }
        self.close(Rule::VarianceIn, m)
    }

    /// `unchecked` and the white space behind it.
    pub fn spaced_unchecked(&mut self) -> (ok: bool)
        requires
            old(self).wf(),
        ensures
            final(self).follows(
                old(self),
                ok,
                declarations::spaced_unchecked(old(self).bytes(), old(self).at()),
            ),
    {
        proof {
            reveal(declarations::spaced_unchecked);
        }
        let m = self.mark();
        if !self.unchecked() {
            return self.rewind(m);
        }
        self.trivia();
        true
    }

    /// `out` or `in`, and the white space behind it.
    pub fn spaced_variance(&mut self) -> (ok: bool)
        requires
            old(self).wf(),
        ensures
            final(self).follows(
                old(self),
                ok,
                declarations::spaced_variance(old(self).bytes(), old(self).at()),
            ),
    {
        proof {
            reveal(declarations::spaced_variance);
        }
        let m = self.mark();
        if !(self.variance_out() || self.variance_in()) {
            return self.rewind(m);
        }
        self.trivia();
        true
    }

    /// The modifiers of a generic parameter: `unchecked`, a variance, or both
    /// in either order.
    pub fn modifiers(&mut self) -> (ok: bool)
        requires
            old(self).wf(),
        ensures
            final(self).follows(
                old(self),
                ok,
                declarations::modifiers(old(self).bytes(), old(self).at()),
            ),
    {
        proof {
            reveal(declarations::modifiers);
        }
        if self.spaced_unchecked() {
            self.spaced_variance();
            return true;
        }
        if self.spaced_variance() {
            self.spaced_unchecked();
            return true;
        }
        false
    }

    /// The identifier of a generic parameter.
    pub fn type_param_name(&mut self) -> (ok: bool)
        requires
            old(self).wf(),
        ensures
            final(self).follows(
                old(self),
                ok,
                declarations::type_param_name(old(self).bytes(), old(self).at()),
            ),
    {
        proof {
            reveal(declarations::type_param_name);
        }
        let m = self.open();
        if !self.upper_ident() {
            return self.rewind(m);
        }
        self.close(Rule::TypeParamName, m)
    }

    /// The upper bound of a generic parameter: `<` and a type, with white
    /// space allowed around the `<`.
    pub fn bound(&mut self) -> (ok: bool)
        requires
            old(self).wf(),
        ensures
            final(self).follows(
                old(self),
                ok,
                declarations::bound(old(self).bytes(), old(self).at()),
            ),
    {
        proof {
            reveal(declarations::bound);
        }
        let m = self.mark();
        self.trivia();
        if !self.byte(LESS) {
            return self.rewind(m);
        }
        self.trivia();
        if !self.type_expr() {
            return self.rewind(m);
        }
        true
    }

    /// A generic parameter: optional modifiers, the identifier and an optional
    /// upper bound.
    pub fn type_param(&mut self) -> (ok: bool)
        requires
            old(self).wf(),
        ensures
            final(self).follows(
                old(self),
                ok,
                declarations::type_param(old(self).bytes(), old(self).at()),
            ),
    {
        proof {
            reveal(declarations::type_param);
        }
        let m = self.open();
        self.modifiers();
        if !self.type_param_name() {
            return self.rewind(m);
        }
        self.bound();
        self.close(Rule::TypeParam, m)
    }

    /// A comma and a generic parameter, with white space allowed around the
    /// comma.
    pub fn comma_type_param(&mut self) -> (ok: bool)
        requires
            old(self).wf(),
        ensures
            final(self).follows(
                old(self),
                ok,
                declarations::comma_type_param(old(self).bytes(), old(self).at()),
            ),
            ok ==> final(self).current_offset > old(self).current_offset,
    {
        proof {
            reveal(declarations::comma_type_param);
        }
        let m = self.mark();
        self.trivia();
        if !self.byte(COMMA) {
            return self.rewind(m);
        }
        self.trivia();
        if !self.type_param() {
            return self.rewind(m);
        }
        true
    }

    /// As many further generic parameters, each behind a comma, as there are
    /// at `p`; never fails.
    pub fn more_type_params(&mut self) -> (ok: bool)
        requires
            old(self).wf(),
        ensures
            ok,
            final(self).follows(
                old(self),
                ok,
                declarations::more_type_params(old(self).bytes(), old(self).at()),
            ),
    {
        let ghost s = self.bytes();
        let ghost total = declarations::more_type_params(s, self.at());
        loop
            invariant
                self.resumes(old(self), total, declarations::more_type_params(s, self.at())),
                self.bytes() == s,
            ensures
                final(self).follows(old(self), true, total),
            decreases self.end_offset - self.current_offset,
        {
            proof {
                reveal_with_fuel(declarations::more_type_params, 1);
            }
            if !self.comma_type_param() {
                break;
            }
        }
        true
    }

    /// The generic parameters of a declaration: `[`, one or more parameters
    /// between commas, and `]`.
    pub fn type_params(&mut self) -> (ok: bool)
        requires
            old(self).wf(),
        ensures
            final(self).follows(
                old(self),
                ok,
                declarations::type_params(old(self).bytes(), old(self).at()),
            ),
    {
        proof {
            reveal(declarations::type_params);
        }
        let m = self.open();
        if !self.byte(LEFT_BRACKET) {
            return self.rewind(m);
        }
        self.trivia();
        if !self.type_param() {
            return self.rewind(m);
        }
        self.more_type_params();
        self.trivia();
        if !self.byte(RIGHT_BRACKET) {
            return self.rewind(m);
        }
        self.close(Rule::TypeParams, m)
    }

    /// White space and generic parameters; the part of a declaration that may
    /// be missing.
    pub fn spaced_type_params(&mut self) -> (ok: bool)
        requires
            old(self).wf(),
        ensures
            final(self).follows(
                old(self),
                ok,
                declarations::spaced_type_params(old(self).bytes(), old(self).at()),
            ),
    {
        proof {
            reveal(declarations::spaced_type_params);
        }
        let m = self.mark();
        self.trivia();
        if !self.type_params() {
            return self.rewind(m);
        }
        true
    }

    /// The superclass of a class: `<` and a class with optional type
    /// arguments.
    pub fn super_class(&mut self) -> (ok: bool)
        requires
            old(self).wf(),
        ensures
            final(self).follows(
                old(self),
                ok,
                declarations::super_class(old(self).bytes(), old(self).at()),
            ),
    {
        proof {
            reveal(declarations::super_class);
        }
        let m = self.open();
        if !self.byte(LESS) {
            return self.rewind(m);
        }
        self.trivia();
        if !self.type_class_instance_name() {
            return self.rewind(m);
        }
        self.close(Rule::SuperClass, m)
    }

    /// White space and a superclass; the part of a class declaration that may
    /// be missing.
    pub fn spaced_super_class(&mut self) -> (ok: bool)
        requires
            old(self).wf(),
        ensures
            final(self).follows(
                old(self),
                ok,
                declarations::spaced_super_class(old(self).bytes(), old(self).at()),
            ),
    {
        proof {
            reveal(declarations::spaced_super_class);
        }
        let m = self.mark();
        self.trivia();
        if !self.super_class() {
            return self.rewind(m);
        }
        true
    }

    /// The self types of a module: `:` and one or more types between commas.
    pub fn self_types(&mut self) -> (ok: bool)
        requires
            old(self).wf(),
        ensures
            final(self).follows(
                old(self),
                ok,
                declarations::self_types(old(self).bytes(), old(self).at()),
            ),
    {
        proof {
            reveal(declarations::self_types);
        }
        let m = self.open();
        if !self.byte(COLON) {
            return self.rewind(m);
        }
        self.trivia();
        if !self.type_list() {
            return self.rewind(m);
        }
        self.close(Rule::SelfTypes, m)
    }

    /// White space and self types; the part of a module declaration that may
    /// be missing.
    pub fn spaced_self_types(&mut self) -> (ok: bool)
        requires
            old(self).wf(),
        ensures
            final(self).follows(
                old(self),
                ok,
                declarations::spaced_self_types(old(self).bytes(), old(self).at()),
            ),
    {
        proof {
            reveal(declarations::spaced_self_types);
        }
        let m = self.mark();
        self.trivia();
        if !self.self_types() {
            return self.rewind(m);
        }
        true
    }

    /// White space and a member.
    pub fn spaced_member(&mut self) -> (ok: bool)
        requires
            old(self).wf(),
        ensures
            final(self).follows(
                old(self),
                ok,
                declarations::spaced_member(old(self).bytes(), old(self).at()),
            ),
    {
        proof {
            reveal(declarations::spaced_member);
        }
        let m = self.mark();
        self.trivia();
        if !self.member() {
            return self.rewind(m);
        }
        true
    }

    /// As many members as there are at `p`; never fails.
    pub fn members(&mut self) -> (ok: bool)
        requires
            old(self).wf(),
        ensures
            ok,
            final(self).follows(
                old(self),
                ok,
                declarations::members(old(self).bytes(), old(self).at()),
            ),
    {
        let ghost s = self.bytes();
        let ghost total = declarations::members(s, self.at());
        loop
            invariant_except_break
                self.resumes(old(self), total, declarations::members(s, self.at())),
                self.bytes() == s,
            ensures
                final(self).follows(old(self), true, total),
            decreases self.end_offset - self.current_offset,
        {
            proof {
                reveal_with_fuel(declarations::members, 1);
            }
            let start = self.current_offset;
            if !self.spaced_member() {
                break;
            }
            if self.current_offset <= start {
                break;
            }
        }
        true
    }

    /// A class declaration: `class`, the name, optional generic parameters, an
    /// optional superclass, the members and `end`.
    #[verifier::rlimit(50)]
    pub fn class_decl(&mut self) -> (ok: bool)
        requires
            old(self).wf(),
        ensures
            final(self).follows(
                old(self),
                ok,
                declarations::class_decl(old(self).bytes(), old(self).at()),
            ),
    {
        proof {
            reveal(declarations::class_decl);
        }
        let m = self.open();
        if !self.keyword("class") {
            return self.rewind(m);
        }
        self.trivia();
        if !self.class_name() {
            return self.rewind(m);
        }
        self.spaced_type_params();
        self.spaced_super_class();
        self.members();
        self.trivia();
        if !self.keyword("end") {
            return self.rewind(m);
        }
        self.close(Rule::ClassDecl, m)
    }

    /// A module declaration: `module`, the name, optional generic parameters,
    /// optional self types, the members and `end`.
    #[verifier::rlimit(50)]
    pub fn module_decl(&mut self) -> (ok: bool)
        requires
            old(self).wf(),
        ensures
            final(self).follows(
                old(self),
                ok,
                declarations::module_decl(old(self).bytes(), old(self).at()),
            ),
    {
        proof {
            reveal(declarations::module_decl);
        }
        let m = self.open();
        if !self.keyword("module") {
            return self.rewind(m);
        }
        self.trivia();
        if !self.class_name() {
            return self.rewind(m);
        }
        self.spaced_type_params();
        self.spaced_self_types();
        self.members();
        self.trivia();
        if !self.keyword("end") {
            return self.rewind(m);
        }
        self.close(Rule::ModuleDecl, m)
    }

    /// A constant declaration: the name, `:` and the type.
    pub fn const_decl(&mut self) -> (ok: bool)
        requires
            old(self).wf(),
        ensures
            final(self).follows(
                old(self),
                ok,
                declarations::const_decl(old(self).bytes(), old(self).at()),
            ),
    {
        proof {
            reveal(declarations::const_decl);
        }
        let m = self.open();
        if !self.const_name() {
            return self.rewind(m);
        }
        self.trivia();
        if !self.byte(COLON) {
            return self.rewind(m);
        }
        self.trivia();
        if !self.type_expr() {
            return self.rewind(m);
        }
        self.close(Rule::ConstDecl, m)
    }
}

/// Parses a class declaration at the start of `source`; what follows the
/// declaration is left unread.
pub fn parse_class_decl(source: &str) -> (r: Result<SyntaxTree, SyntaxError>)
    ensures
        parsed(r, Rule::ClassDecl, source.spec_bytes()),
{
    RbsParser::parse(Rule::ClassDecl, source)
}

/// Parses a class declaration at the start of `source`, as
/// [`parse_class_decl`] does.
pub fn parse_class(source: &str) -> (r: Result<SyntaxTree, SyntaxError>)
    ensures
        parsed(r, Rule::ClassDecl, source.spec_bytes()),
{
    RbsParser::parse(Rule::ClassDecl, source)
}

/// Parses a module declaration at the start of `source`; what follows the
/// declaration is left unread.
pub fn parse_module_decl(source: &str) -> (r: Result<SyntaxTree, SyntaxError>)
    ensures
        parsed(r, Rule::ModuleDecl, source.spec_bytes()),
{
    RbsParser::parse(Rule::ModuleDecl, source)
}

/// Parses a constant declaration at the start of `source`; what follows the
/// declaration is left unread.
pub fn parse_const_decl(source: &str) -> (r: Result<SyntaxTree, SyntaxError>)
    ensures
        parsed(r, Rule::ConstDecl, source.spec_bytes()),
{
    RbsParser::parse(Rule::ConstDecl, source)
}

} // verus!
