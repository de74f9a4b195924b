use vstd::prelude::*;
use vstd::string::StringSliceAdditionalSpecFns;
use crate::context::Context;
use crate::grammar::lexical::{COMMA, LEFT_BRACKET, LEFT_PAREN, RIGHT_BRACKET, RIGHT_PAREN};
use crate::grammar::types;
use crate::parser::{parsed, RbsParser};
use crate::rule::Rule;
use crate::tree::{SyntaxError, SyntaxTree};

verus! {

impl<'input> Context<'input> {
    /// `singleton`, and a class name in parentheses.
    pub fn type_singleton_class_name(&mut self) -> (ok: bool)
        requires
            old(self).wf(),
        ensures
            final(self).follows(
                old(self),
                ok,
                types::type_singleton_class_name(old(self).bytes(), old(self).at()),
            ),
    {
        proof {
            reveal(types::type_singleton_class_name);
        }
        let m = self.open();
        if !self.keyword("singleton") {
            return self.rewind(m);
        }
        self.trivia();
        if !self.byte(LEFT_PAREN) {
            return self.rewind(m);
        }
        self.trivia();
        if !self.class_name() {
            return self.rewind(m);
        }
        self.trivia();
        if !self.byte(RIGHT_PAREN) {
            return self.rewind(m);
        }
        self.close(Rule::TypeSingletonClassName, m)
    }

    /// Any type expression.
    pub fn type_expr(&mut self) -> (ok: bool)
        requires
            old(self).wf(),
        ensures
            final(self).follows(old(self), ok, types::type_expr(old(self).bytes(), old(self).at())),
        decreases old(self).end_offset - old(self).current_offset, 5int,
    {
        proof {
            reveal_with_fuel(types::type_expr, 1);
            reveal_with_fuel(types::type_interface_name, 1);
            reveal_with_fuel(types::type_class_instance_name, 1);
            reveal_with_fuel(types::type_alias_name, 1);
        }
        let m = self.open();
        if !(self.type_singleton_class_name() || self.type_interface_name()
            || self.type_class_instance_name() || self.type_alias_name() || self.literal_value()) {
            return self.rewind(m);
        }
        self.close(Rule::Type, m)
    }

    /// White space and type arguments.
    pub fn spaced_type_arguments(&mut self) -> (ok: bool)
        requires
            old(self).wf(),
        ensures
            final(self).follows(
                old(self),
                ok,
                types::spaced_type_arguments(old(self).bytes(), old(self).at()),
            ),
        decreases old(self).end_offset - old(self).current_offset, 3int,
    {
        proof {
            reveal_with_fuel(types::spaced_type_arguments, 1);
            reveal_with_fuel(types::type_arguments, 1);
        }
        let m = self.mark();
        self.trivia();
        if !self.type_arguments() {
            return self.rewind(m);
        }
        true
    }

    /// A class name and, optionally, type arguments.
    pub fn type_class_instance_name(&mut self) -> (ok: bool)
        requires
            old(self).wf(),
        ensures
            final(self).follows(
                old(self),
                ok,
                types::type_class_instance_name(old(self).bytes(), old(self).at()),
            ),
        decreases old(self).end_offset - old(self).current_offset, 4int,
    {
        proof {
            reveal_with_fuel(types::type_class_instance_name, 1);
            reveal_with_fuel(types::spaced_type_arguments, 1);
        }
        let m = self.open();
        if !self.class_name() {
            return self.rewind(m);
        }
        self.spaced_type_arguments();
        self.close(Rule::TypeClassInstanceName, m)
    }

    /// An interface name and, optionally, type arguments.
    pub fn type_interface_name(&mut self) -> (ok: bool)
        requires
            old(self).wf(),
        ensures
            final(self).follows(
                old(self),
                ok,
                types::type_interface_name(old(self).bytes(), old(self).at()),
            ),
        decreases old(self).end_offset - old(self).current_offset, 4int,
    {
        proof {
            reveal_with_fuel(types::type_interface_name, 1);
            reveal_with_fuel(types::spaced_type_arguments, 1);
        }
        let m = self.open();
        if !self.interface_name() {
            return self.rewind(m);
        }
        self.spaced_type_arguments();
        self.close(Rule::TypeInterfaceName, m)
    }

    /// An alias name and, optionally, type arguments.
    pub fn type_alias_name(&mut self) -> (ok: bool)
        requires
            old(self).wf(),
        ensures
            final(self).follows(
                old(self),
                ok,
                types::type_alias_name(old(self).bytes(), old(self).at()),
            ),
        decreases old(self).end_offset - old(self).current_offset, 4int,
    {
        proof {
            reveal_with_fuel(types::type_alias_name, 1);
            reveal_with_fuel(types::spaced_type_arguments, 1);
        }
        let m = self.open();
        if !self.alias_name() {
            return self.rewind(m);
        }
        self.spaced_type_arguments();
        self.close(Rule::TypeAliasName, m)
    }

    /// `[`, one or more types between commas, and `]`.
    pub fn type_arguments(&mut self) -> (ok: bool)
        requires
            old(self).wf(),
        ensures
            final(self).follows(
                old(self),
                ok,
                types::type_arguments(old(self).bytes(), old(self).at()),
            ),
        decreases old(self).end_offset - old(self).current_offset, 2int,
    {
        proof {
            reveal_with_fuel(types::type_arguments, 1);
            reveal_with_fuel(types::type_list, 1);
        }
        let m = self.open();
        if !self.byte(LEFT_BRACKET) {
            return self.rewind(m);
        }
        self.trivia();
        if !self.type_list() {
            return self.rewind(m);
        }
        self.trivia();
        if !self.byte(RIGHT_BRACKET) {
            return self.rewind(m);
        }
        self.close(Rule::TypeArguments, m)
    }

    /// One or more types between commas.
    pub fn type_list(&mut self) -> (ok: bool)
        requires
            old(self).wf(),
        ensures
            final(self).follows(old(self), ok, types::type_list(old(self).bytes(), old(self).at())),
        decreases old(self).end_offset - old(self).current_offset, 6int,
    {
        proof {
            reveal_with_fuel(types::type_list, 1);
            reveal_with_fuel(types::type_expr, 1);
            reveal_with_fuel(types::more_types, 1);
        }
        if !self.type_expr() {
            return false;
        }
        self.more_types()
    }

    /// A comma and a type, with white space allowed around the comma.
    pub fn comma_type(&mut self) -> (ok: bool)
        requires
            old(self).wf(),
        ensures
            final(self).follows(
                old(self),
                ok,
                types::comma_type(old(self).bytes(), old(self).at()),
            ),
            ok ==> final(self).current_offset > old(self).current_offset,
        decreases old(self).end_offset - old(self).current_offset, 0int,
    {
        proof {
            reveal_with_fuel(types::comma_type, 1);
            reveal_with_fuel(types::type_expr, 1);
        }
        let m = self.mark();
        self.trivia();
        if !self.byte(COMMA) {
            return self.rewind(m);
        }
        self.trivia();
        if !self.type_expr() {
            return self.rewind(m);
        }
        true
    }

    /// As many further types, each behind a comma, as there are; never
    /// fails.
    pub fn more_types(&mut self) -> (ok: bool)
        requires
            old(self).wf(),
        ensures
            ok,
            final(self).follows(
                old(self),
                ok,
                types::more_types(old(self).bytes(), old(self).at()),
            ),
        decreases old(self).end_offset - old(self).current_offset, 1int,
    {
        proof {
            reveal_with_fuel(types::more_types, 1);
            reveal_with_fuel(types::comma_type, 1);
        }
        let ghost s = self.bytes();
        let ghost total = types::more_types(s, self.at());
        loop
            invariant
                self.resumes(old(self), total, types::more_types(s, self.at())),
                self.bytes() == s,
                self.end_offset == old(self).end_offset,
            ensures
                final(self).follows(old(self), true, total),
            decreases self.end_offset - self.current_offset,
        {
            proof {
                reveal_with_fuel(types::more_types, 1);
                reveal_with_fuel(types::comma_type, 1);
            }
            if !self.comma_type() {
                break;
            }
        }
        true
    }
}

/// Parses a type expression at the start of `source`; what follows the
/// expression is left unread.
pub fn parse_type(source: &str) -> (r: Result<SyntaxTree, SyntaxError>)
    ensures
        parsed(r, Rule::Type, source.spec_bytes()),
{
    RbsParser::parse(Rule::Type, source)
}

/// Parses the whole of `source` as a class name with optional type
/// arguments.
pub fn parse_class_instance_name(source: &str) -> (r: Result<SyntaxTree, SyntaxError>)
    ensures
        parsed(r, Rule::TypeClassInstanceName, source.spec_bytes()),
{
    RbsParser::parse(Rule::TypeClassInstanceName, source)
}

/// Parses the whole of `source` as an interface name with optional type
/// arguments.
pub fn parse_interface_name(source: &str) -> (r: Result<SyntaxTree, SyntaxError>)
    ensures
        parsed(r, Rule::TypeInterfaceName, source.spec_bytes()),
{
    RbsParser::parse(Rule::TypeInterfaceName, source)
}

/// Parses the whole of `source` as an alias name with optional type
/// arguments.
pub fn parse_alias_name(source: &str) -> (r: Result<SyntaxTree, SyntaxError>)
    ensures
        parsed(r, Rule::TypeAliasName, source.spec_bytes()),
{
    RbsParser::parse(Rule::TypeAliasName, source)
}

/// Parses the whole of `source` as the singleton type of a class.
pub fn parse_singleton_class_name(source: &str) -> (r: Result<SyntaxTree, SyntaxError>)
    ensures
        parsed(r, Rule::TypeSingletonClassName, source.spec_bytes()),
{
    RbsParser::parse(Rule::TypeSingletonClassName, source)
}

/// Parses the whole of `source` as a string, symbol or integer literal.
pub fn parse_literal(source: &str) -> (r: Result<SyntaxTree, SyntaxError>)
    ensures
        parsed(r, Rule::Literal, source.spec_bytes()),
{
    RbsParser::parse(Rule::Literal, source)
}

/// Parses the whole of `source` as a string literal.
pub fn parse_string_literal(source: &str) -> (r: Result<SyntaxTree, SyntaxError>)
    ensures
        parsed(r, Rule::LiteralString, source.spec_bytes()),
{
    RbsParser::parse(Rule::LiteralString, source)
}

/// Parses the whole of `source` as a symbol literal.
pub fn parse_symbol_literal(source: &str) -> (r: Result<SyntaxTree, SyntaxError>)
    ensures
        parsed(r, Rule::LiteralSymbol, source.spec_bytes()),
{
    RbsParser::parse(Rule::LiteralSymbol, source)
}

/// Parses the whole of `source` as an integer literal.
pub fn parse_integer_literal(source: &str) -> (r: Result<SyntaxTree, SyntaxError>)
    ensures
        parsed(r, Rule::LiteralInteger, source.spec_bytes()),
{
    RbsParser::parse(Rule::LiteralInteger, source)
}

} // verus!
