use vstd::prelude::*;
use crate::grammar::lexical::{
    byte, lemma_run_end_bounds, one, Class, BACKSLASH, COLON, DOUBLE_QUOTE, SINGLE_QUOTE,
    UNDERSCORE, ZERO,
};
use crate::grammar::literals::{
    digit_item, digits, double_quoted_string, literal_integer, literal_string, literal_symbol,
    literal_value, more_digits, quoted, radix_integer, single_quoted_string, string_body,
    string_item, symbol_name,
};
use crate::grammar::step::max;
use crate::locality::agreeing::at;
use crate::reach::names::{lemma_settled_byte, settled};

verus! {

/// The items of a string looked at nothing behind their end but what the
/// attempt at one more item looked at, which failed.
pub proof fn lemma_string_body_reach(s: Seq<u8>, p: int, q: u8)
    requires
        0 <= p <= s.len(),
    ensures
        string_body(s, p, q).ok,
        p <= string_body(s, p, q).end <= s.len(),
        !string_item(s, string_body(s, p, q).end, q).ok,
        string_body(s, p, q).seen <= max(
            string_body(s, p, q).end,
            string_item(s, string_body(s, p, q).end, q).seen,
        ),
    decreases s.len() - p,
{
    let item = string_item(s, p, q);
    if item.ok {
        lemma_string_body_reach(s, item.end, q);
    }
}

/// A quoted string that matched looked at nothing behind its closing
/// quote.
pub proof fn lemma_quoted_reach(s: Seq<u8>, p: int, q: u8)
    requires
        0 <= p <= s.len(),
        q != BACKSLASH,
        quoted(s, p, q).ok,
    ensures
        p < quoted(s, p, q).end <= s.len(),
        quoted(s, p, q).seen <= quoted(s, p, q).end,
{
    lemma_string_body_reach(s, p + 1, q);
}

/// A string literal that matched looked at nothing behind its closing
/// quote; where no quote stands, it fails on the first byte.
pub proof fn lemma_literal_string_reach(s: Seq<u8>, p: int)
    requires
        0 <= p <= s.len(),
    ensures
        literal_string(s, p).ok ==> p < literal_string(s, p).end <= s.len() && literal_string(
            s,
            p,
        ).seen <= literal_string(s, p).end,
        at(s, p) != Some(DOUBLE_QUOTE) && at(s, p) != Some(SINGLE_QUOTE) ==> !literal_string(
            s,
            p,
        ).ok && literal_string(s, p).seen == p + 1,
{
    reveal(literal_string);
    reveal(double_quoted_string);
    reveal(single_quoted_string);
    if quoted(s, p, DOUBLE_QUOTE).ok {
        lemma_quoted_reach(s, p, DOUBLE_QUOTE);
    }
    if quoted(s, p, SINGLE_QUOTE).ok {
        lemma_quoted_reach(s, p, SINGLE_QUOTE);
    }
    if at(s, p) == Some(DOUBLE_QUOTE) {
        lemma_string_body_reach(s, p + 1, DOUBLE_QUOTE);
    }
}

/// A symbol literal that matched looked at most at the byte behind its
/// end; where no colon stands, it fails on the first byte.
pub proof fn lemma_literal_symbol_reach(s: Seq<u8>, p: int)
    requires
        0 <= p <= s.len(),
    ensures
        literal_symbol(s, p).ok ==> p < literal_symbol(s, p).end <= s.len() && literal_symbol(
            s,
            p,
        ).seen <= literal_symbol(s, p).end + 1,
        at(s, p) != Some(COLON) ==> !literal_symbol(s, p).ok && literal_symbol(s, p).seen == p
            + 1,
{
    reveal(literal_symbol);
    if at(s, p) == Some(COLON) {
        lemma_literal_string_reach(s, p + 1);
        if p + 1 < s.len() {
            lemma_run_end_bounds(s, p + 2, Class::SymbolChar);
        }
        if at(s, p + 1) == Some(DOUBLE_QUOTE) || at(s, p + 1) == Some(SINGLE_QUOTE) {
            if !literal_string(s, p + 1).ok {
                assert(!symbol_name(s, p + 1).ok);
            }
        }
    }
}

/// Further digits looked at nothing behind their end but what the attempt
/// at one more digit looked at, which failed.
pub proof fn lemma_more_digits_reach(s: Seq<u8>, p: int, c: Class)
    requires
        0 <= p <= s.len(),
    ensures
        more_digits(s, p, c).ok,
        p <= more_digits(s, p, c).end <= s.len(),
        !digit_item(s, more_digits(s, p, c).end, c).ok,
        more_digits(s, p, c).seen <= max(
            more_digits(s, p, c).end,
            digit_item(s, more_digits(s, p, c).end, c).seen,
        ),
    decreases s.len() - p,
{
    let item = digit_item(s, p, c);
    if item.ok {
        lemma_more_digits_reach(s, item.end, c);
    }
}

/// An integer with a radix letter: where it fails, it looked at most at
/// its first three bytes, and at fewer where it fails sooner.
pub proof fn lemma_radix_integer_reach(s: Seq<u8>, p: int, lower: u8, upper: u8, c: Class)
    requires
        0 <= p <= s.len(),
    ensures
        radix_integer(s, p, lower, upper, c).ok ==> p + 3 <= radix_integer(
            s,
            p,
            lower,
            upper,
            c,
        ).end <= s.len() && (at(s, radix_integer(s, p, lower, upper, c).end) != Some(
            UNDERSCORE,
        ) ==> radix_integer(s, p, lower, upper, c).seen <= radix_integer(
            s,
            p,
            lower,
            upper,
            c,
        ).end + 1),
        !radix_integer(s, p, lower, upper, c).ok ==> radix_integer(s, p, lower, upper, c).seen
            <= p + 3,
        at(s, p) != Some(ZERO) ==> !radix_integer(s, p, lower, upper, c).ok && radix_integer(
            s,
            p,
            lower,
            upper,
            c,
        ).seen == p + 1,
        at(s, p + 1) != Some(lower) && at(s, p + 1) != Some(upper) ==> !radix_integer(
            s,
            p,
            lower,
            upper,
            c,
        ).ok && radix_integer(s, p, lower, upper, c).seen <= p + 2,
{
    reveal(radix_integer);
    if p + 2 < s.len() {
        lemma_more_digits_reach(s, p + 3, c);
    }
}

/// An integer literal that matched in front of a settled place looked at
/// the byte behind its end and no further.
pub proof fn lemma_literal_integer_reach(s: Seq<u8>, p: int)
    requires
        0 <= p <= s.len(),
        literal_integer(s, p).ok,
        settled(s, literal_integer(s, p).end),
    ensures
        p < literal_integer(s, p).end <= s.len(),
        literal_integer(s, p).seen <= literal_integer(s, p).end + 1,
{
    reveal(literal_integer);
    lemma_radix_integer_reach(s, p, 0x64, 0x44, Class::Digit);
    lemma_radix_integer_reach(s, p, 0x78, 0x58, Class::Hex);
    lemma_radix_integer_reach(s, p, 0x62, 0x42, Class::Binary);
    lemma_radix_integer_reach(s, p, 0x6f, 0x4f, Class::Octal);
    if p < s.len() {
        lemma_more_digits_reach(s, p + 1, Class::Octal);
        lemma_more_digits_reach(s, p + 1, Class::Digit);
    }
    let e = literal_integer(s, p).end;
    crate::nesting::literals::lemma_literal_integer_nested(s, p);
    lemma_settled_byte(s, e);
}

/// An integer literal fails on its first byte where no digit stands.
pub proof fn lemma_literal_integer_fail(s: Seq<u8>, p: int)
    requires
        0 <= p <= s.len(),
        !(p < s.len() && Class::Digit.has(s[p])),
    ensures
        !literal_integer(s, p).ok,
        literal_integer(s, p).seen == p + 1,
{
    reveal(literal_integer);
    reveal(radix_integer);
}

/// A literal that matched in front of a settled place looked at the byte
/// behind its end and no further.
pub proof fn lemma_literal_value_reach(s: Seq<u8>, p: int)
    requires
        0 <= p <= s.len(),
        literal_value(s, p).ok,
        settled(s, literal_value(s, p).end),
    ensures
        p < literal_value(s, p).end <= s.len(),
        literal_value(s, p).seen <= literal_value(s, p).end + 1,
{
    reveal(literal_value);
    lemma_literal_string_reach(s, p);
    lemma_literal_symbol_reach(s, p);
    if !literal_string(s, p).ok && !literal_symbol(s, p).ok {
        lemma_literal_integer_reach(s, p);
    }
    if !(p < s.len() && Class::Digit.has(s[p])) {
        lemma_literal_integer_fail(s, p);
    }
}

/// A literal fails on its first byte where neither a quote, a colon nor a
/// digit stands.
pub proof fn lemma_literal_value_fail(s: Seq<u8>, p: int)
    requires
        0 <= p <= s.len(),
        at(s, p) != Some(DOUBLE_QUOTE),
        at(s, p) != Some(SINGLE_QUOTE),
        at(s, p) != Some(COLON),
        !(p < s.len() && Class::Digit.has(s[p])),
    ensures
        !literal_value(s, p).ok,
        literal_value(s, p).seen == p + 1,
{
    reveal(literal_value);
    lemma_literal_string_reach(s, p);
    lemma_literal_symbol_reach(s, p);
    lemma_literal_integer_fail(s, p);
}

} // verus!
