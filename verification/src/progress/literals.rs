use vstd::prelude::*;
use vstd::string::StringSliceAdditionalSpecFns;
use crate::grammar::lexical::{
    byte, literal, one, Class, BACKSLASH, COLON, DOUBLE_QUOTE, SINGLE_QUOTE, ZERO,
};
use crate::grammar::step::{either, join};
use crate::grammar::literals;
use crate::nesting::forest::{
    lemma_byte_nested, lemma_either_nested, lemma_join_nested, lemma_literal_nested,
    lemma_one_nested,
};
use crate::progress::words::{lemma_literal_progress, lemma_word_true, lemma_word_false};

verus! {

/// `escape` matches nothing empty.
pub proof fn lemma_escape_progress(s: Seq<u8>, p: int)
    requires
        0 <= p <= s.len(),
    ensures
        literals::escape(s, p).ok ==> p < literals::escape(s, p).end <= s.len(),
{
    crate::nesting::literals::lemma_escape_nested(s, p);
    lemma_byte_nested(s, p, BACKSLASH);
    let a = byte(s, p, BACKSLASH);
    if a.ok {
        lemma_one_nested(s, a.end, Class::Any);
    }
    crate::nesting::forest::lemma_join_nested(s, p, a, one(s, a.end, Class::Any));
    let b = join(a, one(s, a.end, Class::Any));
}

/// `string_item` matches nothing empty.
pub proof fn lemma_string_item_progress(s: Seq<u8>, p: int, q: u8)
    requires
        0 <= p <= s.len(),
    ensures
        literals::string_item(s, p, q).ok ==> p < literals::string_item(s, p, q).end <= s.len(),
{
    crate::nesting::literals::lemma_string_item_nested(s, p, q);
    crate::progress::literals::lemma_escape_progress(s, p);
}

/// `quoted` matches nothing empty.
pub proof fn lemma_quoted_progress(s: Seq<u8>, p: int, q: u8)
    requires
        0 <= p <= s.len(),
    ensures
        literals::quoted(s, p, q).ok ==> p < literals::quoted(s, p, q).end <= s.len(),
{
    crate::nesting::literals::lemma_quoted_nested(s, p, q);
    lemma_byte_nested(s, p, q);
    let a = byte(s, p, q);
    if a.ok {
        crate::nesting::literals::lemma_string_body_nested(s, a.end, q);
    }
    crate::nesting::forest::lemma_join_nested(s, p, a, literals::string_body(s, a.end, q));
    let b = join(a, literals::string_body(s, a.end, q));
    if b.ok {
        lemma_byte_nested(s, b.end, q);
    }
    crate::nesting::forest::lemma_join_nested(s, p, b, byte(s, b.end, q));
    let c = join(b, byte(s, b.end, q));
}

/// `single_quoted_string` matches nothing empty.
pub proof fn lemma_single_quoted_string_progress(s: Seq<u8>, p: int)
    requires
        0 <= p <= s.len(),
    ensures
        literals::single_quoted_string(s, p).ok ==> p < literals::single_quoted_string(s, p).end <= s.len(),
{
    reveal(literals::single_quoted_string);
    crate::nesting::literals::lemma_single_quoted_string_nested(s, p);
    crate::nesting::literals::lemma_quoted_nested(s, p, SINGLE_QUOTE);
    crate::progress::literals::lemma_quoted_progress(s, p, SINGLE_QUOTE);
    let a = literals::quoted(s, p, SINGLE_QUOTE);
}

/// `double_quoted_string` matches nothing empty.
pub proof fn lemma_double_quoted_string_progress(s: Seq<u8>, p: int)
    requires
        0 <= p <= s.len(),
    ensures
        literals::double_quoted_string(s, p).ok ==> p < literals::double_quoted_string(s, p).end <= s.len(),
{
    reveal(literals::double_quoted_string);
    crate::nesting::literals::lemma_double_quoted_string_nested(s, p);
    crate::nesting::literals::lemma_quoted_nested(s, p, DOUBLE_QUOTE);
    crate::progress::literals::lemma_quoted_progress(s, p, DOUBLE_QUOTE);
    let a = literals::quoted(s, p, DOUBLE_QUOTE);
}

/// `literal_string` matches nothing empty.
pub proof fn lemma_literal_string_progress(s: Seq<u8>, p: int)
    requires
        0 <= p <= s.len(),
    ensures
        literals::literal_string(s, p).ok ==> p < literals::literal_string(s, p).end <= s.len(),
{
    reveal(literals::literal_string);
    crate::nesting::literals::lemma_literal_string_nested(s, p);
    crate::nesting::literals::lemma_double_quoted_string_nested(s, p);
    crate::nesting::literals::lemma_single_quoted_string_nested(s, p);
    lemma_either_nested(
        s,
        p,
        literals::double_quoted_string(s, p),
        literals::single_quoted_string(s, p),
    );
    crate::progress::literals::lemma_double_quoted_string_progress(s, p);
    crate::progress::literals::lemma_single_quoted_string_progress(s, p);
    let a = either(literals::double_quoted_string(s, p), literals::single_quoted_string(s, p));
}

/// `literal_symbol` matches nothing empty.
pub proof fn lemma_literal_symbol_progress(s: Seq<u8>, p: int)
    requires
        0 <= p <= s.len(),
    ensures
        literals::literal_symbol(s, p).ok ==> p < literals::literal_symbol(s, p).end <= s.len(),
{
    reveal(literals::literal_symbol);
    crate::nesting::literals::lemma_literal_symbol_nested(s, p);
    lemma_byte_nested(s, p, COLON);
    let a = byte(s, p, COLON);
    if a.ok {
        crate::nesting::literals::lemma_literal_string_nested(s, a.end);
        crate::nesting::literals::lemma_symbol_name_nested(s, a.end);
        lemma_either_nested(
            s,
            a.end,
            literals::literal_string(s, a.end),
            literals::symbol_name(s, a.end),
        );
    }
    crate::nesting::forest::lemma_join_nested(
        s,
        p,
        a,
        either(literals::literal_string(s, a.end), literals::symbol_name(s, a.end)),
    );
    let b = join(a, either(literals::literal_string(s, a.end), literals::symbol_name(s, a.end)));
}

/// `digit_item` matches nothing empty.
pub proof fn lemma_digit_item_progress(s: Seq<u8>, p: int, c: Class)
    requires
        0 <= p <= s.len(),
    ensures
        literals::digit_item(s, p, c).ok ==> p < literals::digit_item(s, p, c).end <= s.len(),
{
}

/// `radix_integer` matches nothing empty.
pub proof fn lemma_radix_integer_progress(s: Seq<u8>, p: int, lower: u8, upper: u8, c: Class)
    requires
        0 <= p <= s.len(),
    ensures
        literals::radix_integer(s, p, lower, upper, c).ok ==> p < literals::radix_integer(s, p, lower, upper, c).end <= s.len(),
{
    reveal(literals::radix_integer);
    crate::nesting::literals::lemma_radix_integer_nested(s, p, lower, upper, c);
    lemma_byte_nested(s, p, ZERO);
    let a = byte(s, p, ZERO);
    if a.ok {
        lemma_byte_nested(s, a.end, lower);
        lemma_byte_nested(s, a.end, upper);
        lemma_either_nested(s, a.end, byte(s, a.end, lower), byte(s, a.end, upper));
    }
    crate::nesting::forest::lemma_join_nested(
        s,
        p,
        a,
        either(byte(s, a.end, lower), byte(s, a.end, upper)),
    );
    let b = join(a, either(byte(s, a.end, lower), byte(s, a.end, upper)));
    if b.ok {
        crate::nesting::literals::lemma_digits_nested(s, b.end, c);
    }
    crate::nesting::forest::lemma_join_nested(s, p, b, literals::digits(s, b.end, c));
    let c = join(b, literals::digits(s, b.end, c));
}

/// `zero_integer` matches nothing empty.
pub proof fn lemma_zero_integer_progress(s: Seq<u8>, p: int)
    requires
        0 <= p <= s.len(),
    ensures
        literals::zero_integer(s, p).ok ==> p < literals::zero_integer(s, p).end <= s.len(),
{
    crate::nesting::literals::lemma_zero_integer_nested(s, p);
    lemma_byte_nested(s, p, ZERO);
    let a = byte(s, p, ZERO);
    if a.ok {
        crate::nesting::literals::lemma_more_digits_nested(s, a.end, Class::Octal);
    }
    crate::nesting::forest::lemma_join_nested(
        s,
        p,
        a,
        literals::more_digits(s, a.end, Class::Octal),
    );
    let b = join(a, literals::more_digits(s, a.end, Class::Octal));
}

/// `decimal_integer` matches nothing empty.
pub proof fn lemma_decimal_integer_progress(s: Seq<u8>, p: int)
    requires
        0 <= p <= s.len(),
    ensures
        literals::decimal_integer(s, p).ok ==> p < literals::decimal_integer(s, p).end <= s.len(),
{
    crate::nesting::literals::lemma_decimal_integer_nested(s, p);
    lemma_one_nested(s, p, Class::NonZeroDigit);
    let a = one(s, p, Class::NonZeroDigit);
    if a.ok {
        crate::nesting::literals::lemma_more_digits_nested(s, a.end, Class::Digit);
    }
    crate::nesting::forest::lemma_join_nested(
        s,
        p,
        a,
        literals::more_digits(s, a.end, Class::Digit),
    );
    let b = join(a, literals::more_digits(s, a.end, Class::Digit));
}

/// `literal_integer` matches nothing empty.
pub proof fn lemma_literal_integer_progress(s: Seq<u8>, p: int)
    requires
        0 <= p <= s.len(),
    ensures
        literals::literal_integer(s, p).ok ==> p < literals::literal_integer(s, p).end <= s.len(),
{
    reveal(literals::literal_integer);
    crate::nesting::literals::lemma_literal_integer_nested(s, p);
    crate::nesting::literals::lemma_radix_integer_nested(s, p, 0x64, 0x44, Class::Digit);
    crate::nesting::literals::lemma_radix_integer_nested(s, p, 0x78, 0x58, Class::Hex);
    crate::nesting::literals::lemma_radix_integer_nested(s, p, 0x62, 0x42, Class::Binary);
    crate::nesting::literals::lemma_radix_integer_nested(s, p, 0x6f, 0x4f, Class::Octal);
    crate::nesting::literals::lemma_zero_integer_nested(s, p);
    crate::nesting::literals::lemma_decimal_integer_nested(s, p);
    lemma_either_nested(s, p, literals::zero_integer(s, p), literals::decimal_integer(s, p));
    lemma_either_nested(
        s,
        p,
        literals::radix_integer(s, p, 0x6f, 0x4f, Class::Octal),
        either(literals::zero_integer(s, p), literals::decimal_integer(s, p)),
    );
    lemma_either_nested(
        s,
        p,
        literals::radix_integer(s, p, 0x62, 0x42, Class::Binary),
        either(
            literals::radix_integer(s, p, 0x6f, 0x4f, Class::Octal),
            either(literals::zero_integer(s, p), literals::decimal_integer(s, p)),
        ),
    );
    lemma_either_nested(
        s,
        p,
        literals::radix_integer(s, p, 0x78, 0x58, Class::Hex),
        either(
            literals::radix_integer(s, p, 0x62, 0x42, Class::Binary),
            either(
                literals::radix_integer(s, p, 0x6f, 0x4f, Class::Octal),
                either(literals::zero_integer(s, p), literals::decimal_integer(s, p)),
            ),
        ),
    );
    lemma_either_nested(
        s,
        p,
        literals::radix_integer(s, p, 0x64, 0x44, Class::Digit),
        either(
            literals::radix_integer(s, p, 0x78, 0x58, Class::Hex),
            either(
                literals::radix_integer(s, p, 0x62, 0x42, Class::Binary),
                either(
                    literals::radix_integer(s, p, 0x6f, 0x4f, Class::Octal),
                    either(literals::zero_integer(s, p), literals::decimal_integer(s, p)),
                ),
            ),
        ),
    );
    crate::progress::literals::lemma_radix_integer_progress(s, p, 0x64, 0x44, Class::Digit);
    crate::progress::literals::lemma_radix_integer_progress(s, p, 0x78, 0x58, Class::Hex);
    crate::progress::literals::lemma_radix_integer_progress(s, p, 0x62, 0x42, Class::Binary);
    crate::progress::literals::lemma_radix_integer_progress(s, p, 0x6f, 0x4f, Class::Octal);
    crate::progress::literals::lemma_zero_integer_progress(s, p);
    crate::progress::literals::lemma_decimal_integer_progress(s, p);
    let a = either(
        literals::radix_integer(s, p, 0x64, 0x44, Class::Digit),
        either(
            literals::radix_integer(s, p, 0x78, 0x58, Class::Hex),
            either(
                literals::radix_integer(s, p, 0x62, 0x42, Class::Binary),
                either(
                    literals::radix_integer(s, p, 0x6f, 0x4f, Class::Octal),
                    either(literals::zero_integer(s, p), literals::decimal_integer(s, p)),
                ),
            ),
        ),
    );
}

/// `literal_boolean` matches nothing empty.
pub proof fn lemma_literal_boolean_progress(s: Seq<u8>, p: int)
    requires
        0 <= p <= s.len(),
    ensures
        literals::literal_boolean(s, p).ok ==> p < literals::literal_boolean(s, p).end <= s.len(),
{
    reveal(literals::literal_boolean);
    crate::nesting::literals::lemma_literal_boolean_nested(s, p);
    lemma_literal_nested(s, p, "true".spec_bytes());
    lemma_literal_nested(s, p, "false".spec_bytes());
    lemma_either_nested(
        s,
        p,
        literal(s, p, "true".spec_bytes()),
        literal(s, p, "false".spec_bytes()),
    );
    lemma_word_true();
    lemma_literal_progress(s, p, "true".spec_bytes());
    lemma_word_false();
    lemma_literal_progress(s, p, "false".spec_bytes());
    let a = either(literal(s, p, "true".spec_bytes()), literal(s, p, "false".spec_bytes()));
}

/// `literal_value` matches nothing empty.
pub proof fn lemma_literal_value_progress(s: Seq<u8>, p: int)
    requires
        0 <= p <= s.len(),
    ensures
        literals::literal_value(s, p).ok ==> p < literals::literal_value(s, p).end <= s.len(),
{
    reveal(literals::literal_value);
    crate::nesting::literals::lemma_literal_value_nested(s, p);
    crate::nesting::literals::lemma_literal_string_nested(s, p);
    crate::nesting::literals::lemma_literal_symbol_nested(s, p);
    crate::nesting::literals::lemma_literal_integer_nested(s, p);
    lemma_either_nested(s, p, literals::literal_symbol(s, p), literals::literal_integer(s, p));
    lemma_either_nested(
        s,
        p,
        literals::literal_string(s, p),
        either(literals::literal_symbol(s, p), literals::literal_integer(s, p)),
    );
    crate::progress::literals::lemma_literal_string_progress(s, p);
    crate::progress::literals::lemma_literal_symbol_progress(s, p);
    crate::progress::literals::lemma_literal_integer_progress(s, p);
    let a = either(
        literals::literal_string(s, p),
        either(literals::literal_symbol(s, p), literals::literal_integer(s, p)),
    );
}

} // verus!
