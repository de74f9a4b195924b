use vstd::prelude::*;
use vstd::string::StringSliceAdditionalSpecFns;
use crate::firmness::firm::{firm, lemma_join_firm, lemma_node_firm};
use crate::grammar::lexical::{
    byte, literal, one, other, run, Class, BACKSLASH, COLON, DOUBLE_QUOTE, SINGLE_QUOTE,
    UNDERSCORE, ZERO,
};
use crate::grammar::step::{either, join};
use crate::grammar::literals;
use crate::nesting::forest::{
    lemma_byte_nested, lemma_either_nested, lemma_join_nested, lemma_literal_nested,
    lemma_one_nested, lemma_other_nested, lemma_run_nested,
};
use crate::rule::Rule;

verus! {

/// Every node that `escape` leaves spans something.
pub proof fn lemma_escape_firm(s: Seq<u8>, p: int)
    requires
        0 <= p <= s.len(),
    ensures
        firm(literals::escape(s, p)),
{
    lemma_byte_nested(s, p, BACKSLASH);
    let a = byte(s, p, BACKSLASH);
    if a.ok {
        lemma_one_nested(s, a.end, Class::Any);
    }
    crate::nesting::forest::lemma_join_nested(s, p, a, one(s, a.end, Class::Any));
    lemma_join_firm(a, one(s, a.end, Class::Any));
    let b = join(a, one(s, a.end, Class::Any));
    crate::progress::literals::lemma_escape_progress(s, p);
    lemma_node_firm(Rule::Escape, p, b);
}

/// Every node that `string_item` leaves spans something.
pub proof fn lemma_string_item_firm(s: Seq<u8>, p: int, q: u8)
    requires
        0 <= p <= s.len(),
    ensures
        firm(literals::string_item(s, p, q)),
{
    crate::nesting::literals::lemma_escape_nested(s, p);
    lemma_other_nested(s, p, q, BACKSLASH);
    lemma_either_nested(s, p, literals::escape(s, p), other(s, p, q, BACKSLASH));
    crate::firmness::literals::lemma_escape_firm(s, p);
}

/// Every node that `string_body` leaves spans something.
pub proof fn lemma_string_body_firm(s: Seq<u8>, p: int, q: u8)
    requires
        0 <= p <= s.len(),
    ensures
        firm(literals::string_body(s, p, q)),
    decreases s.len() - p,
{
    let item = literals::string_item(s, p, q);
    crate::nesting::literals::lemma_string_item_nested(s, p, q);
    crate::firmness::literals::lemma_string_item_firm(s, p, q);
    if item.ok {
        crate::progress::literals::lemma_string_item_progress(s, p, q);
        lemma_string_body_firm(s, item.end, q);
        lemma_join_firm(item, literals::string_body(s, item.end, q));
    }
}

/// Every node that `quoted` leaves spans something.
pub proof fn lemma_quoted_firm(s: Seq<u8>, p: int, q: u8)
    requires
        0 <= p <= s.len(),
    ensures
        firm(literals::quoted(s, p, q)),
{
    lemma_byte_nested(s, p, q);
    let a = byte(s, p, q);
    if a.ok {
        crate::nesting::literals::lemma_string_body_nested(s, a.end, q);
        crate::firmness::literals::lemma_string_body_firm(s, a.end, q);
    }
    crate::nesting::forest::lemma_join_nested(s, p, a, literals::string_body(s, a.end, q));
    lemma_join_firm(a, literals::string_body(s, a.end, q));
    let b = join(a, literals::string_body(s, a.end, q));
    if b.ok {
        lemma_byte_nested(s, b.end, q);
    }
    crate::nesting::forest::lemma_join_nested(s, p, b, byte(s, b.end, q));
    lemma_join_firm(b, byte(s, b.end, q));
    let c = join(b, byte(s, b.end, q));
}

/// Every node that `single_quoted_string` leaves spans something.
pub proof fn lemma_single_quoted_string_firm(s: Seq<u8>, p: int)
    requires
        0 <= p <= s.len(),
    ensures
        firm(literals::single_quoted_string(s, p)),
{
    reveal(literals::single_quoted_string);
    crate::nesting::literals::lemma_quoted_nested(s, p, SINGLE_QUOTE);
    crate::firmness::literals::lemma_quoted_firm(s, p, SINGLE_QUOTE);
    let a = literals::quoted(s, p, SINGLE_QUOTE);
    crate::progress::literals::lemma_single_quoted_string_progress(s, p);
    lemma_node_firm(Rule::SingleQuotedString, p, a);
}

/// Every node that `double_quoted_string` leaves spans something.
pub proof fn lemma_double_quoted_string_firm(s: Seq<u8>, p: int)
    requires
        0 <= p <= s.len(),
    ensures
        firm(literals::double_quoted_string(s, p)),
{
    reveal(literals::double_quoted_string);
    crate::nesting::literals::lemma_quoted_nested(s, p, DOUBLE_QUOTE);
    crate::firmness::literals::lemma_quoted_firm(s, p, DOUBLE_QUOTE);
    let a = literals::quoted(s, p, DOUBLE_QUOTE);
    crate::progress::literals::lemma_double_quoted_string_progress(s, p);
    lemma_node_firm(Rule::DoubleQuotedString, p, a);
}

/// Every node that `literal_string` leaves spans something.
pub proof fn lemma_literal_string_firm(s: Seq<u8>, p: int)
    requires
        0 <= p <= s.len(),
    ensures
        firm(literals::literal_string(s, p)),
{
    reveal(literals::literal_string);
    crate::nesting::literals::lemma_double_quoted_string_nested(s, p);
    crate::nesting::literals::lemma_single_quoted_string_nested(s, p);
    lemma_either_nested(
        s,
        p,
        literals::double_quoted_string(s, p),
        literals::single_quoted_string(s, p),
    );
    crate::firmness::literals::lemma_double_quoted_string_firm(s, p);
    crate::firmness::literals::lemma_single_quoted_string_firm(s, p);
    let a = either(literals::double_quoted_string(s, p), literals::single_quoted_string(s, p));
    crate::progress::literals::lemma_literal_string_progress(s, p);
    lemma_node_firm(Rule::LiteralString, p, a);
}

/// Every node that `symbol_name` leaves spans something.
pub proof fn lemma_symbol_name_firm(s: Seq<u8>, p: int)
    requires
        0 <= p <= s.len(),
    ensures
        firm(literals::symbol_name(s, p)),
{
    lemma_one_nested(s, p, Class::SymbolStart);
    let a = one(s, p, Class::SymbolStart);
    if a.ok {
        lemma_run_nested(s, a.end, Class::SymbolChar);
    }
    crate::nesting::forest::lemma_join_nested(s, p, a, run(s, a.end, Class::SymbolChar));
    lemma_join_firm(a, run(s, a.end, Class::SymbolChar));
    let b = join(a, run(s, a.end, Class::SymbolChar));
}

/// Every node that `literal_symbol` leaves spans something.
pub proof fn lemma_literal_symbol_firm(s: Seq<u8>, p: int)
    requires
        0 <= p <= s.len(),
    ensures
        firm(literals::literal_symbol(s, p)),
{
    reveal(literals::literal_symbol);
    lemma_byte_nested(s, p, COLON);
    let a = byte(s, p, COLON);
    if a.ok {
        crate::nesting::literals::lemma_literal_string_nested(s, a.end);
        crate::nesting::literals::lemma_symbol_name_nested(s, a.end);
        lemma_either_nested(
            s,
            a.end,
            literals::literal_string(s, a.end),
            literals::symbol_name(s, a.end),
        );
        crate::firmness::literals::lemma_literal_string_firm(s, a.end);
        crate::firmness::literals::lemma_symbol_name_firm(s, a.end);
    }
    crate::nesting::forest::lemma_join_nested(
        s,
        p,
        a,
        either(literals::literal_string(s, a.end), literals::symbol_name(s, a.end)),
    );
    lemma_join_firm(a, either(literals::literal_string(s, a.end), literals::symbol_name(s, a.end)));
    let b = join(a, either(literals::literal_string(s, a.end), literals::symbol_name(s, a.end)));
    crate::progress::literals::lemma_literal_symbol_progress(s, p);
    lemma_node_firm(Rule::LiteralSymbol, p, b);
}

/// Every node that `digit_item` leaves spans something.
pub proof fn lemma_digit_item_firm(s: Seq<u8>, p: int, c: Class)
    requires
        0 <= p <= s.len(),
    ensures
        firm(literals::digit_item(s, p, c)),
{
    let sep = byte(s, p, UNDERSCORE);
    lemma_join_firm(sep, one(s, sep.end, c));
}

/// Every node that `more_digits` leaves spans something.
pub proof fn lemma_more_digits_firm(s: Seq<u8>, p: int, c: Class)
    requires
        0 <= p <= s.len(),
    ensures
        firm(literals::more_digits(s, p, c)),
    decreases s.len() - p,
{
    let item = literals::digit_item(s, p, c);
    crate::nesting::literals::lemma_digit_item_nested(s, p, c);
    crate::firmness::literals::lemma_digit_item_firm(s, p, c);
    if item.ok {
        crate::progress::literals::lemma_digit_item_progress(s, p, c);
        lemma_more_digits_firm(s, item.end, c);
        lemma_join_firm(item, literals::more_digits(s, item.end, c));
    }
}

/// Every node that `digits` leaves spans something.
pub proof fn lemma_digits_firm(s: Seq<u8>, p: int, c: Class)
    requires
        0 <= p <= s.len(),
    ensures
        firm(literals::digits(s, p, c)),
{
    lemma_one_nested(s, p, c);
    let a = one(s, p, c);
    if a.ok {
        crate::nesting::literals::lemma_more_digits_nested(s, a.end, c);
        crate::firmness::literals::lemma_more_digits_firm(s, a.end, c);
    }
    crate::nesting::forest::lemma_join_nested(s, p, a, literals::more_digits(s, a.end, c));
    lemma_join_firm(a, literals::more_digits(s, a.end, c));
    let b = join(a, literals::more_digits(s, a.end, c));
}

/// Every node that `radix_integer` leaves spans something.
pub proof fn lemma_radix_integer_firm(s: Seq<u8>, p: int, lower: u8, upper: u8, c: Class)
    requires
        0 <= p <= s.len(),
    ensures
        firm(literals::radix_integer(s, p, lower, upper, c)),
{
    reveal(literals::radix_integer);
    lemma_byte_nested(s, p, ZERO);
    let a = byte(s, p, ZERO);
    if a.ok {
        lemma_byte_nested(s, a.end, lower);
        lemma_byte_nested(s, a.end, upper);
        lemma_either_nested(s, a.end, byte(s, a.end, lower), byte(s, a.end, upper));
    }
    crate::nesting::forest::lemma_join_nested(
        s,
        p,
        a,
        either(byte(s, a.end, lower), byte(s, a.end, upper)),
    );
    lemma_join_firm(a, either(byte(s, a.end, lower), byte(s, a.end, upper)));
    let b = join(a, either(byte(s, a.end, lower), byte(s, a.end, upper)));
    if b.ok {
        crate::nesting::literals::lemma_digits_nested(s, b.end, c);
        crate::firmness::literals::lemma_digits_firm(s, b.end, c);
    }
    crate::nesting::forest::lemma_join_nested(s, p, b, literals::digits(s, b.end, c));
    lemma_join_firm(b, literals::digits(s, b.end, c));
    let c = join(b, literals::digits(s, b.end, c));
}

/// Every node that `zero_integer` leaves spans something.
pub proof fn lemma_zero_integer_firm(s: Seq<u8>, p: int)
    requires
        0 <= p <= s.len(),
    ensures
        firm(literals::zero_integer(s, p)),
{
    lemma_byte_nested(s, p, ZERO);
    let a = byte(s, p, ZERO);
    if a.ok {
        crate::nesting::literals::lemma_more_digits_nested(s, a.end, Class::Octal);
        crate::firmness::literals::lemma_more_digits_firm(s, a.end, Class::Octal);
    }
    crate::nesting::forest::lemma_join_nested(
        s,
        p,
        a,
        literals::more_digits(s, a.end, Class::Octal),
    );
    lemma_join_firm(a, literals::more_digits(s, a.end, Class::Octal));
    let b = join(a, literals::more_digits(s, a.end, Class::Octal));
}

/// Every node that `decimal_integer` leaves spans something.
pub proof fn lemma_decimal_integer_firm(s: Seq<u8>, p: int)
    requires
        0 <= p <= s.len(),
    ensures
        firm(literals::decimal_integer(s, p)),
{
    lemma_one_nested(s, p, Class::NonZeroDigit);
    let a = one(s, p, Class::NonZeroDigit);
    if a.ok {
        crate::nesting::literals::lemma_more_digits_nested(s, a.end, Class::Digit);
        crate::firmness::literals::lemma_more_digits_firm(s, a.end, Class::Digit);
    }
    crate::nesting::forest::lemma_join_nested(
        s,
        p,
        a,
        literals::more_digits(s, a.end, Class::Digit),
    );
    lemma_join_firm(a, literals::more_digits(s, a.end, Class::Digit));
    let b = join(a, literals::more_digits(s, a.end, Class::Digit));
}

/// Every node that `literal_integer` leaves spans something.
pub proof fn lemma_literal_integer_firm(s: Seq<u8>, p: int)
    requires
        0 <= p <= s.len(),
    ensures
        firm(literals::literal_integer(s, p)),
{
    reveal(literals::literal_integer);
    crate::nesting::literals::lemma_radix_integer_nested(s, p, 0x64, 0x44, Class::Digit);
    crate::nesting::literals::lemma_radix_integer_nested(s, p, 0x78, 0x58, Class::Hex);
    crate::nesting::literals::lemma_radix_integer_nested(s, p, 0x62, 0x42, Class::Binary);
    crate::nesting::literals::lemma_radix_integer_nested(s, p, 0x6f, 0x4f, Class::Octal);
    crate::nesting::literals::lemma_zero_integer_nested(s, p);
    crate::nesting::literals::lemma_decimal_integer_nested(s, p);
    lemma_either_nested(s, p, literals::zero_integer(s, p), literals::decimal_integer(s, p));
    lemma_either_nested(
        s,
        p,
        literals::radix_integer(s, p, 0x6f, 0x4f, Class::Octal),
        either(literals::zero_integer(s, p), literals::decimal_integer(s, p)),
    );
    lemma_either_nested(
        s,
        p,
        literals::radix_integer(s, p, 0x62, 0x42, Class::Binary),
        either(
            literals::radix_integer(s, p, 0x6f, 0x4f, Class::Octal),
            either(literals::zero_integer(s, p), literals::decimal_integer(s, p)),
        ),
    );
    lemma_either_nested(
        s,
        p,
        literals::radix_integer(s, p, 0x78, 0x58, Class::Hex),
        either(
            literals::radix_integer(s, p, 0x62, 0x42, Class::Binary),
            either(
                literals::radix_integer(s, p, 0x6f, 0x4f, Class::Octal),
                either(literals::zero_integer(s, p), literals::decimal_integer(s, p)),
            ),
        ),
    );
    lemma_either_nested(
        s,
        p,
        literals::radix_integer(s, p, 0x64, 0x44, Class::Digit),
        either(
            literals::radix_integer(s, p, 0x78, 0x58, Class::Hex),
            either(
                literals::radix_integer(s, p, 0x62, 0x42, Class::Binary),
                either(
                    literals::radix_integer(s, p, 0x6f, 0x4f, Class::Octal),
                    either(literals::zero_integer(s, p), literals::decimal_integer(s, p)),
                ),
            ),
        ),
    );
    crate::firmness::literals::lemma_radix_integer_firm(s, p, 0x64, 0x44, Class::Digit);
    crate::firmness::literals::lemma_radix_integer_firm(s, p, 0x78, 0x58, Class::Hex);
    crate::firmness::literals::lemma_radix_integer_firm(s, p, 0x62, 0x42, Class::Binary);
    crate::firmness::literals::lemma_radix_integer_firm(s, p, 0x6f, 0x4f, Class::Octal);
    crate::firmness::literals::lemma_zero_integer_firm(s, p);
    crate::firmness::literals::lemma_decimal_integer_firm(s, p);
    let a = either(
        literals::radix_integer(s, p, 0x64, 0x44, Class::Digit),
        either(
            literals::radix_integer(s, p, 0x78, 0x58, Class::Hex),
            either(
                literals::radix_integer(s, p, 0x62, 0x42, Class::Binary),
                either(
                    literals::radix_integer(s, p, 0x6f, 0x4f, Class::Octal),
                    either(literals::zero_integer(s, p), literals::decimal_integer(s, p)),
                ),
            ),
        ),
    );
    crate::progress::literals::lemma_literal_integer_progress(s, p);
    lemma_node_firm(Rule::LiteralInteger, p, a);
}

/// Every node that `literal_boolean` leaves spans something.
pub proof fn lemma_literal_boolean_firm(s: Seq<u8>, p: int)
    requires
        0 <= p <= s.len(),
    ensures
        firm(literals::literal_boolean(s, p)),
{
    reveal(literals::literal_boolean);
    lemma_literal_nested(s, p, "true".spec_bytes());
    lemma_literal_nested(s, p, "false".spec_bytes());
    lemma_either_nested(
        s,
        p,
        literal(s, p, "true".spec_bytes()),
        literal(s, p, "false".spec_bytes()),
    );
    let a = either(literal(s, p, "true".spec_bytes()), literal(s, p, "false".spec_bytes()));
    crate::progress::literals::lemma_literal_boolean_progress(s, p);
    lemma_node_firm(Rule::LiteralBoolean, p, a);
}

/// Every node that `literal_value` leaves spans something.
pub proof fn lemma_literal_value_firm(s: Seq<u8>, p: int)
    requires
        0 <= p <= s.len(),
    ensures
        firm(literals::literal_value(s, p)),
{
    reveal(literals::literal_value);
    crate::nesting::literals::lemma_literal_string_nested(s, p);
    crate::nesting::literals::lemma_literal_symbol_nested(s, p);
    crate::nesting::literals::lemma_literal_integer_nested(s, p);
    lemma_either_nested(s, p, literals::literal_symbol(s, p), literals::literal_integer(s, p));
    lemma_either_nested(
        s,
        p,
        literals::literal_string(s, p),
        either(literals::literal_symbol(s, p), literals::literal_integer(s, p)),
    );
    crate::firmness::literals::lemma_literal_string_firm(s, p);
    crate::firmness::literals::lemma_literal_symbol_firm(s, p);
    crate::firmness::literals::lemma_literal_integer_firm(s, p);
    let a = either(
        literals::literal_string(s, p),
        either(literals::literal_symbol(s, p), literals::literal_integer(s, p)),
    );
    crate::progress::literals::lemma_literal_value_progress(s, p);
    lemma_node_firm(Rule::Literal, p, a);
}

} // verus!
