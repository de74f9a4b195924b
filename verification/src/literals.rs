use vstd::prelude::*;
use crate::context::Context;
use crate::grammar::lexical::{
    Class, BACKSLASH, COLON, DOUBLE_QUOTE, SINGLE_QUOTE, UNDERSCORE, ZERO,
};
use crate::grammar::literals;
use crate::rule::Rule;

verus! {

impl<'input> Context<'input> {
    /// A backslash and the byte behind it.
    pub fn escape(&mut self) -> (ok: bool)
        requires
            old(self).wf(),
        ensures
            final(self).follows(old(self), ok, literals::escape(old(self).bytes(), old(self).at())),
    {
        let m = self.open();
        if !self.byte(BACKSLASH) {
            return self.rewind(m);
        }
        if !self.one(Class::Any) {
            return self.rewind(m);
        }
        self.close(Rule::Escape, m)
    }

    /// One item of a string between the quotes `q`.
    pub fn string_item(&mut self, q: u8) -> (ok: bool)
        requires
            old(self).wf(),
        ensures
            final(self).follows(
                old(self),
                ok,
                literals::string_item(old(self).bytes(), old(self).at(), q),
            ),
    {
        self.escape() || self.other(q, BACKSLASH)
    }

    /// As many string items as there are; never fails.
    pub fn string_body(&mut self, q: u8) -> (ok: bool)
        requires
            old(self).wf(),
        ensures
            ok,
            final(self).follows(
                old(self),
                ok,
                literals::string_body(old(self).bytes(), old(self).at(), q),
            ),
    {
        let ghost s = self.bytes();
        let ghost total = literals::string_body(s, self.at(), q);
        loop
            invariant
                self.resumes(old(self), total, literals::string_body(s, self.at(), q)),
                self.bytes() == s,
            ensures
                final(self).follows(old(self), true, total),
            decreases self.end_offset - self.current_offset,
        {
            if !self.string_item(q) {
                break;
            }
        }
        true
    }

    /// The quote `q`, string items, and the quote `q` again.
    pub fn quoted(&mut self, q: u8) -> (ok: bool)
        requires
            old(self).wf(),
        ensures
            final(self).follows(
                old(self),
                ok,
                literals::quoted(old(self).bytes(), old(self).at(), q),
            ),
    {
        let m = self.mark();
        if !self.byte(q) {
            return false;
        }
        self.string_body(q);
        if !self.byte(q) {
            return self.rewind(m);
        }
        true
    }

    /// A string between single quotes.
    pub fn single_quoted_string(&mut self) -> (ok: bool)
        requires
            old(self).wf(),
        ensures
            final(self).follows(
                old(self),
                ok,
                literals::single_quoted_string(old(self).bytes(), old(self).at()),
            ),
    {
        proof {
            reveal(literals::single_quoted_string);
        }
        let m = self.open();
        if !self.quoted(SINGLE_QUOTE) {
            return self.rewind(m);
        }
        self.close(Rule::SingleQuotedString, m)
    }

    /// A string between double quotes.
    pub fn double_quoted_string(&mut self) -> (ok: bool)
        requires
            old(self).wf(),
        ensures
            final(self).follows(
                old(self),
                ok,
                literals::double_quoted_string(old(self).bytes(), old(self).at()),
            ),
    {
        proof {
            reveal(literals::double_quoted_string);
        }
        let m = self.open();
        if !self.quoted(DOUBLE_QUOTE) {
            return self.rewind(m);
        }
        self.close(Rule::DoubleQuotedString, m)
    }

    /// A string literal, in either kind of quotes.
    pub fn literal_string(&mut self) -> (ok: bool)
        requires
            old(self).wf(),
        ensures
            final(self).follows(
                old(self),
                ok,
                literals::literal_string(old(self).bytes(), old(self).at()),
            ),
    {
        proof {
            reveal(literals::literal_string);
        }
        let m = self.open();
        if !(self.double_quoted_string() || self.single_quoted_string()) {
            return self.rewind(m);
        }
        self.close(Rule::LiteralString, m)
    }

    /// The bare name of a symbol.
    pub fn symbol_name(&mut self) -> (ok: bool)
        requires
            old(self).wf(),
        ensures
            final(self).follows(
                old(self),
                ok,
                literals::symbol_name(old(self).bytes(), old(self).at()),
            ),
    {
        self.one(Class::SymbolStart) && self.run(Class::SymbolChar)
    }

    /// A symbol literal: `:` and a string literal or a bare name.
    pub fn literal_symbol(&mut self) -> (ok: bool)
        requires
            old(self).wf(),
        ensures
            final(self).follows(
                old(self),
                ok,
                literals::literal_symbol(old(self).bytes(), old(self).at()),
            ),
    {
        proof {
            reveal(literals::literal_symbol);
        }
        let m = self.open();
        if !self.byte(COLON) {
            return self.rewind(m);
        }
        if !(self.literal_string() || self.symbol_name()) {
            return self.rewind(m);
        }
        self.close(Rule::LiteralSymbol, m)
    }

    /// One more digit of the class `c`, with an optional `_` in front of it.
    pub fn digit_item(&mut self, c: Class) -> (ok: bool)
        requires
            old(self).wf(),
        ensures
            final(self).follows(
                old(self),
                ok,
                literals::digit_item(old(self).bytes(), old(self).at(), c),
            ),
    {
        if self.one(c) {
            return true;
        }
        let m = self.mark();
        if !self.byte(UNDERSCORE) {
            return false;
        }
        if !self.one(c) {
            return self.rewind(m);
        }
        true
    }

    /// As many further digits of the class `c` as there are; never fails.
    pub fn more_digits(&mut self, c: Class) -> (ok: bool)
        requires
            old(self).wf(),
        ensures
            ok,
            final(self).follows(
                old(self),
                ok,
                literals::more_digits(old(self).bytes(), old(self).at(), c),
            ),
    {
        let ghost s = self.bytes();
        let ghost total = literals::more_digits(s, self.at(), c);
        loop
            invariant
                self.resumes(old(self), total, literals::more_digits(s, self.at(), c)),
                self.bytes() == s,
            ensures
                final(self).follows(old(self), true, total),
            decreases self.end_offset - self.current_offset,
        {
            if !self.digit_item(c) {
                break;
            }
        }
        true
    }

    /// One or more digits of the class `c`, with single `_` allowed between
    /// two of them.
    pub fn digits(&mut self, c: Class) -> (ok: bool)
        requires
            old(self).wf(),
        ensures
            final(self).follows(
                old(self),
                ok,
                literals::digits(old(self).bytes(), old(self).at(), c),
            ),
    {
        self.one(c) && self.more_digits(c)
    }

    /// `0`, the radix letter in either case, and digits of the class `c`.
    pub fn radix_integer(&mut self, lower: u8, upper: u8, c: Class) -> (ok: bool)
        requires
            old(self).wf(),
        ensures
            final(self).follows(
                old(self),
                ok,
                literals::radix_integer(old(self).bytes(), old(self).at(), lower, upper, c),
            ),
    {
        proof {
            reveal(literals::radix_integer);
        }
        let m = self.mark();
        if !self.byte(ZERO) {
            return false;
        }
        if !(self.byte(lower) || self.byte(upper)) {
            return self.rewind(m);
        }
        if !self.digits(c) {
            return self.rewind(m);
        }
        true
    }

    /// `0` and further octal digits.
    pub fn zero_integer(&mut self) -> (ok: bool)
        requires
            old(self).wf(),
        ensures
            final(self).follows(
                old(self),
                ok,
                literals::zero_integer(old(self).bytes(), old(self).at()),
            ),
    {
        self.byte(ZERO) && self.more_digits(Class::Octal)
    }

    /// A decimal number that does not start with `0`.
    pub fn decimal_integer(&mut self) -> (ok: bool)
        requires
            old(self).wf(),
        ensures
            final(self).follows(
                old(self),
                ok,
                literals::decimal_integer(old(self).bytes(), old(self).at()),
            ),
    {
        self.one(Class::NonZeroDigit) && self.more_digits(Class::Digit)
    }

    /// An integer literal.
    pub fn literal_integer(&mut self) -> (ok: bool)
        requires
            old(self).wf(),
        ensures
            final(self).follows(
                old(self),
                ok,
                literals::literal_integer(old(self).bytes(), old(self).at()),
            ),
    {
        proof {
            reveal(literals::literal_integer);
        }
        let m = self.open();
        if !(self.radix_integer(0x64, 0x44, Class::Digit) || self.radix_integer(
            0x78,
            0x58,
            Class::Hex,
        ) || self.radix_integer(0x62, 0x42, Class::Binary) || self.radix_integer(
            0x6f,
            0x4f,
            Class::Octal,
        ) || self.zero_integer() || self.decimal_integer()) {
            return self.rewind(m);
        }
        self.close(Rule::LiteralInteger, m)
    }

    /// A boolean literal: `true` or `false`, whatever follows it.
    pub fn literal_boolean(&mut self) -> (ok: bool)
        requires
            old(self).wf(),
        ensures
            final(self).follows(
                old(self),
                ok,
                literals::literal_boolean(old(self).bytes(), old(self).at()),
            ),
    {
        proof {
            reveal(literals::literal_boolean);
        }
        let m = self.open();
        if !(self.literal("true") || self.literal("false")) {
            return self.rewind(m);
        }
        self.close(Rule::LiteralBoolean, m)
    }

    /// A literal: a string, a symbol or an integer.
    pub fn literal_value(&mut self) -> (ok: bool)
        requires
            old(self).wf(),
        ensures
            final(self).follows(
                old(self),
                ok,
                literals::literal_value(old(self).bytes(), old(self).at()),
            ),
    {
        proof {
            reveal(literals::literal_value);
        }
        let m = self.open();
        if !(self.literal_string() || self.literal_symbol() || self.literal_integer()) {
            return self.rewind(m);
        }
        self.close(Rule::Literal, m)
    }
}

} // verus!
