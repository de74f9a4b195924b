use vstd::prelude::*;
use vstd::string::StringSliceAdditionalSpecFns;
use crate::grammar::lexical::{
    byte, literal, one, other, run, Class, BACKSLASH, COLON, DOUBLE_QUOTE, SINGLE_QUOTE,
    UNDERSCORE, ZERO,
};
use crate::grammar::step::{either, join, node, opt, quiet, Step};
use crate::rule::Rule;

verus! {

/// A backslash and the byte behind it, whatever that byte is.
pub open spec fn escape(s: Seq<u8>, p: int) -> Step {
    let slash = byte(s, p, BACKSLASH);
    node(Rule::Escape, p, join(slash, one(s, slash.end, Class::Any)))
}

/// One item of a string between the quotes `q`: an escape, or a byte that
/// is neither `q` nor a backslash.
pub open spec fn string_item(s: Seq<u8>, p: int, q: u8) -> Step {
    either(escape(s, p), other(s, p, q, BACKSLASH))
}

/// As many string items as there are at `p`; never fails.
pub open spec fn string_body(s: Seq<u8>, p: int, q: u8) -> Step
    decreases s.len() - p,
{
    let item = string_item(s, p, q);
    if item.ok {
        join(item, string_body(s, item.end, q))
    } else {
        opt(p, item)
    }
}

/// The quote `q`, string items, and the quote `q` again.
pub open spec fn quoted(s: Seq<u8>, p: int, q: u8) -> Step {
    let a = byte(s, p, q);
    let b = join(a, string_body(s, a.end, q));
    join(b, byte(s, b.end, q))
}

/// A string between single quotes.
#[verifier::opaque]
pub open spec fn single_quoted_string(s: Seq<u8>, p: int) -> Step {
    node(Rule::SingleQuotedString, p, quoted(s, p, SINGLE_QUOTE))
}

/// A string between double quotes.
#[verifier::opaque]
pub open spec fn double_quoted_string(s: Seq<u8>, p: int) -> Step {
    node(Rule::DoubleQuotedString, p, quoted(s, p, DOUBLE_QUOTE))
}

/// A string literal, in either kind of quotes.
#[verifier::opaque]
pub open spec fn literal_string(s: Seq<u8>, p: int) -> Step {
    node(Rule::LiteralString, p, either(double_quoted_string(s, p), single_quoted_string(s, p)))
}

/// The bare name of a symbol: it starts with a letter, `_` or a multi-byte
/// character and goes on with those and digits.
pub open spec fn symbol_name(s: Seq<u8>, p: int) -> Step {
    let head = one(s, p, Class::SymbolStart);
    quiet(p, join(head, run(s, head.end, Class::SymbolChar)))
}

/// A symbol literal: `:` and a string literal or a bare name.
#[verifier::opaque]
pub open spec fn literal_symbol(s: Seq<u8>, p: int) -> Step {
    let colon = byte(s, p, COLON);
    node(
        Rule::LiteralSymbol,
        p,
        join(colon, either(literal_string(s, colon.end), symbol_name(s, colon.end))),
    )
}

/// One more digit of the class `c`, with an optional `_` in front of it.
pub open spec fn digit_item(s: Seq<u8>, p: int, c: Class) -> Step {
    let sep = byte(s, p, UNDERSCORE);
    either(one(s, p, c), quiet(p, join(sep, one(s, sep.end, c))))
}

/// As many further digits of the class `c` as there are at `p`, each with
/// an optional `_` in front of it; never fails.
pub open spec fn more_digits(s: Seq<u8>, p: int, c: Class) -> Step
    decreases s.len() - p,
{
    let item = digit_item(s, p, c);
    if item.ok {
        join(item, more_digits(s, item.end, c))
    } else {
        opt(p, item)
    }
}

/// One or more digits of the class `c`, with single `_` allowed between
/// two of them.
pub open spec fn digits(s: Seq<u8>, p: int, c: Class) -> Step {
    let head = one(s, p, c);
    quiet(p, join(head, more_digits(s, head.end, c)))
}

/// `0`, the radix letter in either case, and digits of the class `c`.
#[verifier::opaque]
pub open spec fn radix_integer(s: Seq<u8>, p: int, lower: u8, upper: u8, c: Class) -> Step {
    let zero = byte(s, p, ZERO);
    let mark = join(zero, either(byte(s, zero.end, lower), byte(s, zero.end, upper)));
    quiet(p, join(mark, digits(s, mark.end, c)))
}

/// `0` and further octal digits: zero, or an octal number without a radix
/// letter.
pub open spec fn zero_integer(s: Seq<u8>, p: int) -> Step {
    let zero = byte(s, p, ZERO);
    quiet(p, join(zero, more_digits(s, zero.end, Class::Octal)))
}

/// A decimal number that does not start with `0`.
pub open spec fn decimal_integer(s: Seq<u8>, p: int) -> Step {
    let head = one(s, p, Class::NonZeroDigit);
    quiet(p, join(head, more_digits(s, head.end, Class::Digit)))
}

/// An integer literal: `0d`, `0x`, `0b` or `0o` and digits of that radix;
/// or `0` and octal digits; or a decimal number.
#[verifier::opaque]
pub open spec fn literal_integer(s: Seq<u8>, p: int) -> Step {
    node(
        Rule::LiteralInteger,
        p,
        either(
            radix_integer(s, p, 0x64, 0x44, Class::Digit),
            either(
                radix_integer(s, p, 0x78, 0x58, Class::Hex),
                either(
                    radix_integer(s, p, 0x62, 0x42, Class::Binary),
                    either(
                        radix_integer(s, p, 0x6f, 0x4f, Class::Octal),
                        either(zero_integer(s, p), decimal_integer(s, p)),
                    ),
                ),
            ),
        ),
    )
}

/// A boolean literal: `true` or `false`, whatever follows it.
#[verifier::opaque]
pub open spec fn literal_boolean(s: Seq<u8>, p: int) -> Step {
    node(
        Rule::LiteralBoolean,
        p,
        either(literal(s, p, "true".spec_bytes()), literal(s, p, "false".spec_bytes())),
    )
}

/// A literal: a string, a symbol or an integer.
#[verifier::opaque]
pub open spec fn literal_value(s: Seq<u8>, p: int) -> Step {
    node(
        Rule::Literal,
        p,
        either(literal_string(s, p), either(literal_symbol(s, p), literal_integer(s, p))),
    )
}

} // verus!
