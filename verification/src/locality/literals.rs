use vstd::prelude::*;
use vstd::string::StringSliceAdditionalSpecFns;
use crate::grammar::lexical::{
    byte, literal, one, other, run, Class, BACKSLASH, COLON, DOUBLE_QUOTE, SINGLE_QUOTE,
    UNDERSCORE, ZERO,
};
use crate::grammar::step::{either, join};
use crate::grammar::literals;
use crate::locality::agreeing::{
    agree, lemma_agree_length, lemma_agree_less, lemma_byte_local, lemma_literal_local,
    lemma_one_local, lemma_other_local, lemma_run_local,
};
use crate::nesting::forest::{
    lemma_byte_nested, lemma_literal_nested, lemma_one_nested, lemma_other_nested,
    lemma_run_nested,
};

verus! {

/// `escape` does the same on two inputs that agree in what it looked at.
pub proof fn lemma_escape_local(s: Seq<u8>, t: Seq<u8>, p: int)
    requires
        0 <= p <= s.len(),
        agree(s, t, literals::escape(s, p).seen),
    ensures
        literals::escape(t, p) == literals::escape(s, p),
{
    let n = literals::escape(s, p).seen;
    lemma_byte_nested(s, p, BACKSLASH);
    lemma_agree_less(s, t, n, byte(s, p, BACKSLASH).seen);
    lemma_byte_local(s, t, p, BACKSLASH);
    let a = byte(s, p, BACKSLASH);
    if a.ok {
        lemma_agree_length(s, t, n, a.end);
        lemma_one_nested(s, a.end, Class::Any);
        lemma_agree_less(s, t, n, one(s, a.end, Class::Any).seen);
        lemma_one_local(s, t, a.end, Class::Any);
    }
    crate::nesting::forest::lemma_join_nested(s, p, a, one(s, a.end, Class::Any));
    let b = join(a, one(s, a.end, Class::Any));
}

/// `string_item` does the same on two inputs that agree in what it looked at.
pub proof fn lemma_string_item_local(s: Seq<u8>, t: Seq<u8>, p: int, q: u8)
    requires
        0 <= p <= s.len(),
        agree(s, t, literals::string_item(s, p, q).seen),
    ensures
        literals::string_item(t, p, q) == literals::string_item(s, p, q),
{
    let n = literals::string_item(s, p, q).seen;
    crate::nesting::literals::lemma_escape_nested(s, p);
    lemma_agree_less(s, t, n, literals::escape(s, p).seen);
    crate::locality::literals::lemma_escape_local(s, t, p);
    if !literals::escape(s, p).ok {
        lemma_other_nested(s, p, q, BACKSLASH);
        lemma_agree_less(s, t, n, other(s, p, q, BACKSLASH).seen);
        lemma_other_local(s, t, p, q, BACKSLASH);
    }
}

/// `string_body` does the same on two inputs that agree in what it looked at.
pub proof fn lemma_string_body_local(s: Seq<u8>, t: Seq<u8>, p: int, q: u8)
    requires
        0 <= p <= s.len(),
        agree(s, t, literals::string_body(s, p, q).seen),
    ensures
        literals::string_body(t, p, q) == literals::string_body(s, p, q),
    decreases s.len() - p,
{
    let n = literals::string_body(s, p, q).seen;
    let item = literals::string_item(s, p, q);
    crate::nesting::literals::lemma_string_item_nested(s, p, q);
    lemma_agree_less(s, t, n, literals::string_item(s, p, q).seen);
    crate::locality::literals::lemma_string_item_local(s, t, p, q);
    if item.ok {
        lemma_agree_length(s, t, n, item.end);
        lemma_agree_less(s, t, n, literals::string_body(s, item.end, q).seen);
        lemma_string_body_local(s, t, item.end, q);
    }
}

/// `quoted` does the same on two inputs that agree in what it looked at.
pub proof fn lemma_quoted_local(s: Seq<u8>, t: Seq<u8>, p: int, q: u8)
    requires
        0 <= p <= s.len(),
        agree(s, t, literals::quoted(s, p, q).seen),
    ensures
        literals::quoted(t, p, q) == literals::quoted(s, p, q),
{
    let n = literals::quoted(s, p, q).seen;
    lemma_byte_nested(s, p, q);
    lemma_agree_less(s, t, n, byte(s, p, q).seen);
    lemma_byte_local(s, t, p, q);
    let a = byte(s, p, q);
    if a.ok {
        lemma_agree_length(s, t, n, a.end);
        crate::nesting::literals::lemma_string_body_nested(s, a.end, q);
        lemma_agree_less(s, t, n, literals::string_body(s, a.end, q).seen);
        crate::locality::literals::lemma_string_body_local(s, t, a.end, q);
    }
    crate::nesting::forest::lemma_join_nested(s, p, a, literals::string_body(s, a.end, q));
    let b = join(a, literals::string_body(s, a.end, q));
    if b.ok {
        lemma_agree_length(s, t, n, b.end);
        lemma_byte_nested(s, b.end, q);
        lemma_agree_less(s, t, n, byte(s, b.end, q).seen);
        lemma_byte_local(s, t, b.end, q);
    }
    crate::nesting::forest::lemma_join_nested(s, p, b, byte(s, b.end, q));
    let c = join(b, byte(s, b.end, q));
}

/// `single_quoted_string` does the same on two inputs that agree in what it looked at.
pub proof fn lemma_single_quoted_string_local(s: Seq<u8>, t: Seq<u8>, p: int)
    requires
        0 <= p <= s.len(),
        agree(s, t, literals::single_quoted_string(s, p).seen),
    ensures
        literals::single_quoted_string(t, p) == literals::single_quoted_string(s, p),
{
    reveal(literals::single_quoted_string);
    let n = literals::single_quoted_string(s, p).seen;
    crate::nesting::literals::lemma_quoted_nested(s, p, SINGLE_QUOTE);
    lemma_agree_less(s, t, n, literals::quoted(s, p, SINGLE_QUOTE).seen);
    crate::locality::literals::lemma_quoted_local(s, t, p, SINGLE_QUOTE);
    let a = literals::quoted(s, p, SINGLE_QUOTE);
}

/// `double_quoted_string` does the same on two inputs that agree in what it looked at.
pub proof fn lemma_double_quoted_string_local(s: Seq<u8>, t: Seq<u8>, p: int)
    requires
        0 <= p <= s.len(),
        agree(s, t, literals::double_quoted_string(s, p).seen),
    ensures
        literals::double_quoted_string(t, p) == literals::double_quoted_string(s, p),
{
    reveal(literals::double_quoted_string);
    let n = literals::double_quoted_string(s, p).seen;
    crate::nesting::literals::lemma_quoted_nested(s, p, DOUBLE_QUOTE);
    lemma_agree_less(s, t, n, literals::quoted(s, p, DOUBLE_QUOTE).seen);
    crate::locality::literals::lemma_quoted_local(s, t, p, DOUBLE_QUOTE);
    let a = literals::quoted(s, p, DOUBLE_QUOTE);
}

/// `literal_string` does the same on two inputs that agree in what it looked at.
pub proof fn lemma_literal_string_local(s: Seq<u8>, t: Seq<u8>, p: int)
    requires
        0 <= p <= s.len(),
        agree(s, t, literals::literal_string(s, p).seen),
    ensures
        literals::literal_string(t, p) == literals::literal_string(s, p),
{
    reveal(literals::literal_string);
    let n = literals::literal_string(s, p).seen;
    crate::nesting::literals::lemma_double_quoted_string_nested(s, p);
    lemma_agree_less(s, t, n, literals::double_quoted_string(s, p).seen);
    crate::locality::literals::lemma_double_quoted_string_local(s, t, p);
    if !literals::double_quoted_string(s, p).ok {
        crate::nesting::literals::lemma_single_quoted_string_nested(s, p);
        lemma_agree_less(s, t, n, literals::single_quoted_string(s, p).seen);
        crate::locality::literals::lemma_single_quoted_string_local(s, t, p);
    }
    let a = either(literals::double_quoted_string(s, p), literals::single_quoted_string(s, p));
}

/// `symbol_name` does the same on two inputs that agree in what it looked at.
pub proof fn lemma_symbol_name_local(s: Seq<u8>, t: Seq<u8>, p: int)
    requires
        0 <= p <= s.len(),
        agree(s, t, literals::symbol_name(s, p).seen),
    ensures
        literals::symbol_name(t, p) == literals::symbol_name(s, p),
{
    let n = literals::symbol_name(s, p).seen;
    lemma_one_nested(s, p, Class::SymbolStart);
    lemma_agree_less(s, t, n, one(s, p, Class::SymbolStart).seen);
    lemma_one_local(s, t, p, Class::SymbolStart);
    let a = one(s, p, Class::SymbolStart);
    if a.ok {
        lemma_agree_length(s, t, n, a.end);
        lemma_run_nested(s, a.end, Class::SymbolChar);
        lemma_agree_less(s, t, n, run(s, a.end, Class::SymbolChar).seen);
        lemma_run_local(s, t, a.end, Class::SymbolChar);
    }
    crate::nesting::forest::lemma_join_nested(s, p, a, run(s, a.end, Class::SymbolChar));
    let b = join(a, run(s, a.end, Class::SymbolChar));
}

/// `literal_symbol` does the same on two inputs that agree in what it looked at.
pub proof fn lemma_literal_symbol_local(s: Seq<u8>, t: Seq<u8>, p: int)
    requires
        0 <= p <= s.len(),
        agree(s, t, literals::literal_symbol(s, p).seen),
    ensures
        literals::literal_symbol(t, p) == literals::literal_symbol(s, p),
{
    reveal(literals::literal_symbol);
    let n = literals::literal_symbol(s, p).seen;
    lemma_byte_nested(s, p, COLON);
    lemma_agree_less(s, t, n, byte(s, p, COLON).seen);
    lemma_byte_local(s, t, p, COLON);
    let a = byte(s, p, COLON);
    if a.ok {
        lemma_agree_length(s, t, n, a.end);
        crate::nesting::literals::lemma_literal_string_nested(s, a.end);
        lemma_agree_less(s, t, n, literals::literal_string(s, a.end).seen);
        crate::locality::literals::lemma_literal_string_local(s, t, a.end);
        if !literals::literal_string(s, a.end).ok {
            crate::nesting::literals::lemma_symbol_name_nested(s, a.end);
            lemma_agree_less(s, t, n, literals::symbol_name(s, a.end).seen);
            crate::locality::literals::lemma_symbol_name_local(s, t, a.end);
        }
    }
    crate::nesting::forest::lemma_join_nested(
        s,
        p,
        a,
        either(literals::literal_string(s, a.end), literals::symbol_name(s, a.end)),
    );
    let b = join(a, either(literals::literal_string(s, a.end), literals::symbol_name(s, a.end)));
}

/// `digit_item` does the same on two inputs that agree in what it looked at.
pub proof fn lemma_digit_item_local(s: Seq<u8>, t: Seq<u8>, p: int, c: Class)
    requires
        0 <= p <= s.len(),
        agree(s, t, literals::digit_item(s, p, c).seen),
    ensures
        literals::digit_item(t, p, c) == literals::digit_item(s, p, c),
{
    let n = literals::digit_item(s, p, c).seen;
    lemma_agree_less(s, t, n, one(s, p, c).seen);
    lemma_one_local(s, t, p, c);
    if !one(s, p, c).ok {
        let sep = byte(s, p, UNDERSCORE);
        lemma_agree_less(s, t, n, sep.seen);
        lemma_byte_local(s, t, p, UNDERSCORE);
        if sep.ok {
            lemma_agree_less(s, t, n, one(s, sep.end, c).seen);
            lemma_one_local(s, t, sep.end, c);
        }
    }
}

/// `more_digits` does the same on two inputs that agree in what it looked at.
pub proof fn lemma_more_digits_local(s: Seq<u8>, t: Seq<u8>, p: int, c: Class)
    requires
        0 <= p <= s.len(),
        agree(s, t, literals::more_digits(s, p, c).seen),
    ensures
        literals::more_digits(t, p, c) == literals::more_digits(s, p, c),
    decreases s.len() - p,
{
    let n = literals::more_digits(s, p, c).seen;
    let item = literals::digit_item(s, p, c);
    crate::nesting::literals::lemma_digit_item_nested(s, p, c);
    lemma_agree_less(s, t, n, literals::digit_item(s, p, c).seen);
    crate::locality::literals::lemma_digit_item_local(s, t, p, c);
    if item.ok {
        lemma_agree_length(s, t, n, item.end);
        lemma_agree_less(s, t, n, literals::more_digits(s, item.end, c).seen);
        lemma_more_digits_local(s, t, item.end, c);
    }
}

/// `digits` does the same on two inputs that agree in what it looked at.
pub proof fn lemma_digits_local(s: Seq<u8>, t: Seq<u8>, p: int, c: Class)
    requires
        0 <= p <= s.len(),
        agree(s, t, literals::digits(s, p, c).seen),
    ensures
        literals::digits(t, p, c) == literals::digits(s, p, c),
{
    let n = literals::digits(s, p, c).seen;
    lemma_one_nested(s, p, c);
    lemma_agree_less(s, t, n, one(s, p, c).seen);
    lemma_one_local(s, t, p, c);
    let a = one(s, p, c);
    if a.ok {
        lemma_agree_length(s, t, n, a.end);
        crate::nesting::literals::lemma_more_digits_nested(s, a.end, c);
        lemma_agree_less(s, t, n, literals::more_digits(s, a.end, c).seen);
        crate::locality::literals::lemma_more_digits_local(s, t, a.end, c);
    }
    crate::nesting::forest::lemma_join_nested(s, p, a, literals::more_digits(s, a.end, c));
    let b = join(a, literals::more_digits(s, a.end, c));
}

/// `radix_integer` does the same on two inputs that agree in what it looked at.
pub proof fn lemma_radix_integer_local(
    s: Seq<u8>,
    t: Seq<u8>,
    p: int,
    lower: u8,
    upper: u8,
    c: Class,
)
    requires
        0 <= p <= s.len(),
        agree(s, t, literals::radix_integer(s, p, lower, upper, c).seen),
    ensures
        literals::radix_integer(t, p, lower, upper, c) == literals::radix_integer(s, p, lower, upper, c),
{
    reveal(literals::radix_integer);
    let n = literals::radix_integer(s, p, lower, upper, c).seen;
    lemma_byte_nested(s, p, ZERO);
    lemma_agree_less(s, t, n, byte(s, p, ZERO).seen);
    lemma_byte_local(s, t, p, ZERO);
    let a = byte(s, p, ZERO);
    if a.ok {
        lemma_agree_length(s, t, n, a.end);
        lemma_byte_nested(s, a.end, lower);
        lemma_agree_less(s, t, n, byte(s, a.end, lower).seen);
        lemma_byte_local(s, t, a.end, lower);
        if !byte(s, a.end, lower).ok {
            lemma_byte_nested(s, a.end, upper);
            lemma_agree_less(s, t, n, byte(s, a.end, upper).seen);
            lemma_byte_local(s, t, a.end, upper);
        }
    }
    crate::nesting::forest::lemma_join_nested(
        s,
        p,
        a,
        either(byte(s, a.end, lower), byte(s, a.end, upper)),
    );
    let b = join(a, either(byte(s, a.end, lower), byte(s, a.end, upper)));
    if b.ok {
        lemma_agree_length(s, t, n, b.end);
        crate::nesting::literals::lemma_digits_nested(s, b.end, c);
        lemma_agree_less(s, t, n, literals::digits(s, b.end, c).seen);
        crate::locality::literals::lemma_digits_local(s, t, b.end, c);
    }
    crate::nesting::forest::lemma_join_nested(s, p, b, literals::digits(s, b.end, c));
    let c = join(b, literals::digits(s, b.end, c));
}

/// `zero_integer` does the same on two inputs that agree in what it looked at.
pub proof fn lemma_zero_integer_local(s: Seq<u8>, t: Seq<u8>, p: int)
    requires
        0 <= p <= s.len(),
        agree(s, t, literals::zero_integer(s, p).seen),
    ensures
        literals::zero_integer(t, p) == literals::zero_integer(s, p),
{
    let n = literals::zero_integer(s, p).seen;
    lemma_byte_nested(s, p, ZERO);
    lemma_agree_less(s, t, n, byte(s, p, ZERO).seen);
    lemma_byte_local(s, t, p, ZERO);
    let a = byte(s, p, ZERO);
    if a.ok {
        lemma_agree_length(s, t, n, a.end);
        crate::nesting::literals::lemma_more_digits_nested(s, a.end, Class::Octal);
        lemma_agree_less(s, t, n, literals::more_digits(s, a.end, Class::Octal).seen);
        crate::locality::literals::lemma_more_digits_local(s, t, a.end, Class::Octal);
    }
    crate::nesting::forest::lemma_join_nested(
        s,
        p,
        a,
        literals::more_digits(s, a.end, Class::Octal),
    );
    let b = join(a, literals::more_digits(s, a.end, Class::Octal));
}

/// `decimal_integer` does the same on two inputs that agree in what it looked at.
pub proof fn lemma_decimal_integer_local(s: Seq<u8>, t: Seq<u8>, p: int)
    requires
        0 <= p <= s.len(),
        agree(s, t, literals::decimal_integer(s, p).seen),
    ensures
        literals::decimal_integer(t, p) == literals::decimal_integer(s, p),
{
    let n = literals::decimal_integer(s, p).seen;
    lemma_one_nested(s, p, Class::NonZeroDigit);
    lemma_agree_less(s, t, n, one(s, p, Class::NonZeroDigit).seen);
    lemma_one_local(s, t, p, Class::NonZeroDigit);
    let a = one(s, p, Class::NonZeroDigit);
    if a.ok {
        lemma_agree_length(s, t, n, a.end);
        crate::nesting::literals::lemma_more_digits_nested(s, a.end, Class::Digit);
        lemma_agree_less(s, t, n, literals::more_digits(s, a.end, Class::Digit).seen);
        crate::locality::literals::lemma_more_digits_local(s, t, a.end, Class::Digit);
    }
    crate::nesting::forest::lemma_join_nested(
        s,
        p,
        a,
        literals::more_digits(s, a.end, Class::Digit),
    );
    let b = join(a, literals::more_digits(s, a.end, Class::Digit));
}

/// `literal_integer` does the same on two inputs that agree in what it looked at.
pub proof fn lemma_literal_integer_local(s: Seq<u8>, t: Seq<u8>, p: int)
    requires
        0 <= p <= s.len(),
        agree(s, t, literals::literal_integer(s, p).seen),
    ensures
        literals::literal_integer(t, p) == literals::literal_integer(s, p),
{
    reveal(literals::literal_integer);
    let n = literals::literal_integer(s, p).seen;
    crate::nesting::literals::lemma_radix_integer_nested(s, p, 0x64, 0x44, Class::Digit);
    lemma_agree_less(s, t, n, literals::radix_integer(s, p, 0x64, 0x44, Class::Digit).seen);
    crate::locality::literals::lemma_radix_integer_local(s, t, p, 0x64, 0x44, Class::Digit);
    if !literals::radix_integer(s, p, 0x64, 0x44, Class::Digit).ok {
        crate::nesting::literals::lemma_radix_integer_nested(s, p, 0x78, 0x58, Class::Hex);
        lemma_agree_less(s, t, n, literals::radix_integer(s, p, 0x78, 0x58, Class::Hex).seen);
        crate::locality::literals::lemma_radix_integer_local(s, t, p, 0x78, 0x58, Class::Hex);
        if !literals::radix_integer(s, p, 0x78, 0x58, Class::Hex).ok {
            crate::nesting::literals::lemma_radix_integer_nested(s, p, 0x62, 0x42, Class::Binary);
            lemma_agree_less(
                s,
                t,
                n,
                literals::radix_integer(s, p, 0x62, 0x42, Class::Binary).seen,
            );
            crate::locality::literals::lemma_radix_integer_local(
                s,
                t,
                p,
                0x62,
                0x42,
                Class::Binary,
            );
            if !literals::radix_integer(s, p, 0x62, 0x42, Class::Binary).ok {
                crate::nesting::literals::lemma_radix_integer_nested(
                    s,
                    p,
                    0x6f,
                    0x4f,
                    Class::Octal,
                );
                lemma_agree_less(
                    s,
                    t,
                    n,
                    literals::radix_integer(s, p, 0x6f, 0x4f, Class::Octal).seen,
                );
                crate::locality::literals::lemma_radix_integer_local(
                    s,
                    t,
                    p,
                    0x6f,
                    0x4f,
                    Class::Octal,
                );
                if !literals::radix_integer(s, p, 0x6f, 0x4f, Class::Octal).ok {
                    crate::nesting::literals::lemma_zero_integer_nested(s, p);
                    lemma_agree_less(s, t, n, literals::zero_integer(s, p).seen);
                    crate::locality::literals::lemma_zero_integer_local(s, t, p);
                    if !literals::zero_integer(s, p).ok {
                        crate::nesting::literals::lemma_decimal_integer_nested(s, p);
                        lemma_agree_less(s, t, n, literals::decimal_integer(s, p).seen);
                        crate::locality::literals::lemma_decimal_integer_local(s, t, p);
                    }
                }
            }
        }
    }
    let a = either(
        literals::radix_integer(s, p, 0x64, 0x44, Class::Digit),
        either(
            literals::radix_integer(s, p, 0x78, 0x58, Class::Hex),
            either(
                literals::radix_integer(s, p, 0x62, 0x42, Class::Binary),
                either(
                    literals::radix_integer(s, p, 0x6f, 0x4f, Class::Octal),
                    either(literals::zero_integer(s, p), literals::decimal_integer(s, p)),
                ),
            ),
        ),
    );
}

/// `literal_boolean` does the same on two inputs that agree in what it looked at.
pub proof fn lemma_literal_boolean_local(s: Seq<u8>, t: Seq<u8>, p: int)
    requires
        0 <= p <= s.len(),
        agree(s, t, literals::literal_boolean(s, p).seen),
    ensures
        literals::literal_boolean(t, p) == literals::literal_boolean(s, p),
{
    reveal(literals::literal_boolean);
    let n = literals::literal_boolean(s, p).seen;
    lemma_literal_nested(s, p, "true".spec_bytes());
    lemma_agree_less(s, t, n, literal(s, p, "true".spec_bytes()).seen);
    lemma_literal_local(s, t, p, "true".spec_bytes());
    if !literal(s, p, "true".spec_bytes()).ok {
        lemma_literal_nested(s, p, "false".spec_bytes());
        lemma_agree_less(s, t, n, literal(s, p, "false".spec_bytes()).seen);
        lemma_literal_local(s, t, p, "false".spec_bytes());
    }
    let a = either(literal(s, p, "true".spec_bytes()), literal(s, p, "false".spec_bytes()));
}

/// `literal_value` does the same on two inputs that agree in what it looked at.
pub proof fn lemma_literal_value_local(s: Seq<u8>, t: Seq<u8>, p: int)
    requires
        0 <= p <= s.len(),
        agree(s, t, literals::literal_value(s, p).seen),
    ensures
        literals::literal_value(t, p) == literals::literal_value(s, p),
{
    reveal(literals::literal_value);
    let n = literals::literal_value(s, p).seen;
    crate::nesting::literals::lemma_literal_string_nested(s, p);
    lemma_agree_less(s, t, n, literals::literal_string(s, p).seen);
    crate::locality::literals::lemma_literal_string_local(s, t, p);
    if !literals::literal_string(s, p).ok {
        crate::nesting::literals::lemma_literal_symbol_nested(s, p);
        lemma_agree_less(s, t, n, literals::literal_symbol(s, p).seen);
        crate::locality::literals::lemma_literal_symbol_local(s, t, p);
        if !literals::literal_symbol(s, p).ok {
            crate::nesting::literals::lemma_literal_integer_nested(s, p);
            lemma_agree_less(s, t, n, literals::literal_integer(s, p).seen);
            crate::locality::literals::lemma_literal_integer_local(s, t, p);
        }
    }
    let a = either(
        literals::literal_string(s, p),
        either(literals::literal_symbol(s, p), literals::literal_integer(s, p)),
    );
}

} // verus!
