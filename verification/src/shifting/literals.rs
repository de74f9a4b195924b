use vstd::prelude::*;
use vstd::string::StringSliceAdditionalSpecFns;
use crate::grammar::lexical::{
    byte, literal, one, other, run, Class, BACKSLASH, COLON, DOUBLE_QUOTE, SINGLE_QUOTE,
    UNDERSCORE, ZERO,
};
use crate::grammar::step::{either, join, quiet};
use crate::grammar::literals;
use crate::nesting::forest::{
    lemma_byte_nested, lemma_literal_nested, lemma_one_nested, lemma_other_nested,
    lemma_run_nested,
};
use crate::rule::Rule;
use crate::shifting::moved::{
    lemma_byte_moved, lemma_literal_moved, lemma_moved_either, lemma_moved_join, lemma_moved_node,
    lemma_moved_opt, lemma_moved_quiet, lemma_one_moved, lemma_other_moved, lemma_run_moved,
    lemma_same_from_later, moved, same_from,
};

verus! {

/// `escape` does the same where the same text stands at another offset.
pub proof fn lemma_escape_moved(s: Seq<u8>, p: int, t: Seq<u8>, k: int)
    requires
        same_from(s, p, t, k),
    ensures
        literals::escape(t, p + k) == moved(literals::escape(s, p), k),
{
    lemma_byte_nested(s, p, BACKSLASH);
    lemma_byte_moved(s, p, t, k, BACKSLASH);
    let a = byte(s, p, BACKSLASH);
    if a.ok {
        lemma_same_from_later(s, p, t, k, a.end);
        lemma_one_nested(s, a.end, Class::Any);
        lemma_one_moved(s, a.end, t, k, Class::Any);
    }
    crate::nesting::forest::lemma_join_nested(s, p, a, one(s, a.end, Class::Any));
    lemma_moved_join(a, one(s, a.end, Class::Any), k);
    let b = join(a, one(s, a.end, Class::Any));
    lemma_moved_node(Rule::Escape, p, b, k);
}

/// `string_item` does the same where the same text stands at another offset.
pub proof fn lemma_string_item_moved(s: Seq<u8>, p: int, t: Seq<u8>, k: int, q: u8)
    requires
        same_from(s, p, t, k),
    ensures
        literals::string_item(t, p + k, q) == moved(literals::string_item(s, p, q), k),
{
    crate::nesting::literals::lemma_escape_nested(s, p);
    crate::shifting::literals::lemma_escape_moved(s, p, t, k);
    lemma_other_nested(s, p, q, BACKSLASH);
    lemma_other_moved(s, p, t, k, q, BACKSLASH);
    lemma_moved_either(literals::escape(s, p), other(s, p, q, BACKSLASH), k);
}

/// `string_body` does the same where the same text stands at another offset.
pub proof fn lemma_string_body_moved(s: Seq<u8>, p: int, t: Seq<u8>, k: int, q: u8)
    requires
        same_from(s, p, t, k),
    ensures
        literals::string_body(t, p + k, q) == moved(literals::string_body(s, p, q), k),
    decreases s.len() - p,
{
    let item = literals::string_item(s, p, q);
    crate::nesting::literals::lemma_string_item_nested(s, p, q);
    crate::shifting::literals::lemma_string_item_moved(s, p, t, k, q);
    if item.ok {
        lemma_same_from_later(s, p, t, k, item.end);
        lemma_string_body_moved(s, item.end, t, k, q);
        lemma_moved_join(item, literals::string_body(s, item.end, q), k);
    } else {
        lemma_moved_opt(p, item, k);
    }
}

/// `quoted` does the same where the same text stands at another offset.
pub proof fn lemma_quoted_moved(s: Seq<u8>, p: int, t: Seq<u8>, k: int, q: u8)
    requires
        same_from(s, p, t, k),
    ensures
        literals::quoted(t, p + k, q) == moved(literals::quoted(s, p, q), k),
{
    lemma_byte_nested(s, p, q);
    lemma_byte_moved(s, p, t, k, q);
    let a = byte(s, p, q);
    if a.ok {
        lemma_same_from_later(s, p, t, k, a.end);
        crate::nesting::literals::lemma_string_body_nested(s, a.end, q);
        crate::shifting::literals::lemma_string_body_moved(s, a.end, t, k, q);
    }
    crate::nesting::forest::lemma_join_nested(s, p, a, literals::string_body(s, a.end, q));
    lemma_moved_join(a, literals::string_body(s, a.end, q), k);
    let b = join(a, literals::string_body(s, a.end, q));
    if b.ok {
        lemma_same_from_later(s, p, t, k, b.end);
        lemma_byte_nested(s, b.end, q);
        lemma_byte_moved(s, b.end, t, k, q);
    }
    crate::nesting::forest::lemma_join_nested(s, p, b, byte(s, b.end, q));
    lemma_moved_join(b, byte(s, b.end, q), k);
    let c = join(b, byte(s, b.end, q));
}

/// `single_quoted_string` does the same where the same text stands at another offset.
pub proof fn lemma_single_quoted_string_moved(s: Seq<u8>, p: int, t: Seq<u8>, k: int)
    requires
        same_from(s, p, t, k),
    ensures
        literals::single_quoted_string(t, p + k) == moved(literals::single_quoted_string(s, p), k),
{
    reveal(literals::single_quoted_string);
    crate::nesting::literals::lemma_quoted_nested(s, p, SINGLE_QUOTE);
    crate::shifting::literals::lemma_quoted_moved(s, p, t, k, SINGLE_QUOTE);
    let a = literals::quoted(s, p, SINGLE_QUOTE);
    lemma_moved_node(Rule::SingleQuotedString, p, a, k);
}

/// `double_quoted_string` does the same where the same text stands at another offset.
pub proof fn lemma_double_quoted_string_moved(s: Seq<u8>, p: int, t: Seq<u8>, k: int)
    requires
        same_from(s, p, t, k),
    ensures
        literals::double_quoted_string(t, p + k) == moved(literals::double_quoted_string(s, p), k),
{
    reveal(literals::double_quoted_string);
    crate::nesting::literals::lemma_quoted_nested(s, p, DOUBLE_QUOTE);
    crate::shifting::literals::lemma_quoted_moved(s, p, t, k, DOUBLE_QUOTE);
    let a = literals::quoted(s, p, DOUBLE_QUOTE);
    lemma_moved_node(Rule::DoubleQuotedString, p, a, k);
}

/// `literal_string` does the same where the same text stands at another offset.
pub proof fn lemma_literal_string_moved(s: Seq<u8>, p: int, t: Seq<u8>, k: int)
    requires
        same_from(s, p, t, k),
    ensures
        literals::literal_string(t, p + k) == moved(literals::literal_string(s, p), k),
{
    reveal(literals::literal_string);
    crate::nesting::literals::lemma_double_quoted_string_nested(s, p);
    crate::shifting::literals::lemma_double_quoted_string_moved(s, p, t, k);
    crate::nesting::literals::lemma_single_quoted_string_nested(s, p);
    crate::shifting::literals::lemma_single_quoted_string_moved(s, p, t, k);
    lemma_moved_either(
        literals::double_quoted_string(s, p),
        literals::single_quoted_string(s, p),
        k,
    );
    let a = either(literals::double_quoted_string(s, p), literals::single_quoted_string(s, p));
    lemma_moved_node(Rule::LiteralString, p, a, k);
}

/// `symbol_name` does the same where the same text stands at another offset.
pub proof fn lemma_symbol_name_moved(s: Seq<u8>, p: int, t: Seq<u8>, k: int)
    requires
        same_from(s, p, t, k),
    ensures
        literals::symbol_name(t, p + k) == moved(literals::symbol_name(s, p), k),
{
    lemma_one_nested(s, p, Class::SymbolStart);
    lemma_one_moved(s, p, t, k, Class::SymbolStart);
    let a = one(s, p, Class::SymbolStart);
    if a.ok {
        lemma_same_from_later(s, p, t, k, a.end);
        lemma_run_nested(s, a.end, Class::SymbolChar);
        lemma_run_moved(s, a.end, t, k, Class::SymbolChar);
    }
    crate::nesting::forest::lemma_join_nested(s, p, a, run(s, a.end, Class::SymbolChar));
    lemma_moved_join(a, run(s, a.end, Class::SymbolChar), k);
    let b = join(a, run(s, a.end, Class::SymbolChar));
    lemma_moved_quiet(p, b, k);
}

/// `literal_symbol` does the same where the same text stands at another offset.
pub proof fn lemma_literal_symbol_moved(s: Seq<u8>, p: int, t: Seq<u8>, k: int)
    requires
        same_from(s, p, t, k),
    ensures
        literals::literal_symbol(t, p + k) == moved(literals::literal_symbol(s, p), k),
{
    reveal(literals::literal_symbol);
    lemma_byte_nested(s, p, COLON);
    lemma_byte_moved(s, p, t, k, COLON);
    let a = byte(s, p, COLON);
    if a.ok {
        lemma_same_from_later(s, p, t, k, a.end);
        crate::nesting::literals::lemma_literal_string_nested(s, a.end);
        crate::shifting::literals::lemma_literal_string_moved(s, a.end, t, k);
        crate::nesting::literals::lemma_symbol_name_nested(s, a.end);
        crate::shifting::literals::lemma_symbol_name_moved(s, a.end, t, k);
        lemma_moved_either(literals::literal_string(s, a.end), literals::symbol_name(s, a.end), k);
    }
    crate::nesting::forest::lemma_join_nested(
        s,
        p,
        a,
        either(literals::literal_string(s, a.end), literals::symbol_name(s, a.end)),
    );
    lemma_moved_join(
        a,
        either(literals::literal_string(s, a.end), literals::symbol_name(s, a.end)),
        k,
    );
    let b = join(a, either(literals::literal_string(s, a.end), literals::symbol_name(s, a.end)));
    lemma_moved_node(Rule::LiteralSymbol, p, b, k);
}

/// `digit_item` does the same where the same text stands at another offset.
pub proof fn lemma_digit_item_moved(s: Seq<u8>, p: int, t: Seq<u8>, k: int, c: Class)
    requires
        same_from(s, p, t, k),
    ensures
        literals::digit_item(t, p + k, c) == moved(literals::digit_item(s, p, c), k),
{
    let sep = byte(s, p, UNDERSCORE);
    lemma_one_moved(s, p, t, k, c);
    lemma_byte_moved(s, p, t, k, UNDERSCORE);
    if sep.ok {
        lemma_same_from_later(s, p, t, k, sep.end);
        lemma_one_moved(s, sep.end, t, k, c);
    }
    lemma_moved_join(sep, one(s, sep.end, c), k);
    lemma_moved_quiet(p, join(sep, one(s, sep.end, c)), k);
    lemma_moved_either(one(s, p, c), quiet(p, join(sep, one(s, sep.end, c))), k);
}

/// `more_digits` does the same where the same text stands at another offset.
pub proof fn lemma_more_digits_moved(s: Seq<u8>, p: int, t: Seq<u8>, k: int, c: Class)
    requires
        same_from(s, p, t, k),
    ensures
        literals::more_digits(t, p + k, c) == moved(literals::more_digits(s, p, c), k),
    decreases s.len() - p,
{
    let item = literals::digit_item(s, p, c);
    crate::nesting::literals::lemma_digit_item_nested(s, p, c);
    crate::shifting::literals::lemma_digit_item_moved(s, p, t, k, c);
    if item.ok {
        lemma_same_from_later(s, p, t, k, item.end);
        lemma_more_digits_moved(s, item.end, t, k, c);
        lemma_moved_join(item, literals::more_digits(s, item.end, c), k);
    } else {
        lemma_moved_opt(p, item, k);
    }
}

/// `digits` does the same where the same text stands at another offset.
pub proof fn lemma_digits_moved(s: Seq<u8>, p: int, t: Seq<u8>, k: int, c: Class)
    requires
        same_from(s, p, t, k),
    ensures
        literals::digits(t, p + k, c) == moved(literals::digits(s, p, c), k),
{
    lemma_one_nested(s, p, c);
    lemma_one_moved(s, p, t, k, c);
    let a = one(s, p, c);
    if a.ok {
        lemma_same_from_later(s, p, t, k, a.end);
        crate::nesting::literals::lemma_more_digits_nested(s, a.end, c);
        crate::shifting::literals::lemma_more_digits_moved(s, a.end, t, k, c);
    }
    crate::nesting::forest::lemma_join_nested(s, p, a, literals::more_digits(s, a.end, c));
    lemma_moved_join(a, literals::more_digits(s, a.end, c), k);
    let b = join(a, literals::more_digits(s, a.end, c));
    lemma_moved_quiet(p, b, k);
}

/// `radix_integer` does the same where the same text stands at another offset.
pub proof fn lemma_radix_integer_moved(
    s: Seq<u8>,
    p: int,
    t: Seq<u8>,
    k: int,
    lower: u8,
    upper: u8,
    c: Class,
)
    requires
        same_from(s, p, t, k),
    ensures
        literals::radix_integer(t, p + k, lower, upper, c) == moved(literals::radix_integer(s, p, lower, upper, c), k),
{
    reveal(literals::radix_integer);
    lemma_byte_nested(s, p, ZERO);
    lemma_byte_moved(s, p, t, k, ZERO);
    let a = byte(s, p, ZERO);
    if a.ok {
        lemma_same_from_later(s, p, t, k, a.end);
        lemma_byte_nested(s, a.end, lower);
        lemma_byte_moved(s, a.end, t, k, lower);
        lemma_byte_nested(s, a.end, upper);
        lemma_byte_moved(s, a.end, t, k, upper);
        lemma_moved_either(byte(s, a.end, lower), byte(s, a.end, upper), k);
    }
    crate::nesting::forest::lemma_join_nested(
        s,
        p,
        a,
        either(byte(s, a.end, lower), byte(s, a.end, upper)),
    );
    lemma_moved_join(a, either(byte(s, a.end, lower), byte(s, a.end, upper)), k);
    let b = join(a, either(byte(s, a.end, lower), byte(s, a.end, upper)));
    if b.ok {
        lemma_same_from_later(s, p, t, k, b.end);
        crate::nesting::literals::lemma_digits_nested(s, b.end, c);
        crate::shifting::literals::lemma_digits_moved(s, b.end, t, k, c);
    }
    crate::nesting::forest::lemma_join_nested(s, p, b, literals::digits(s, b.end, c));
    lemma_moved_join(b, literals::digits(s, b.end, c), k);
    let c = join(b, literals::digits(s, b.end, c));
    lemma_moved_quiet(p, c, k);
}

/// `zero_integer` does the same where the same text stands at another offset.
pub proof fn lemma_zero_integer_moved(s: Seq<u8>, p: int, t: Seq<u8>, k: int)
    requires
        same_from(s, p, t, k),
    ensures
        literals::zero_integer(t, p + k) == moved(literals::zero_integer(s, p), k),
{
    lemma_byte_nested(s, p, ZERO);
    lemma_byte_moved(s, p, t, k, ZERO);
    let a = byte(s, p, ZERO);
    if a.ok {
        lemma_same_from_later(s, p, t, k, a.end);
        crate::nesting::literals::lemma_more_digits_nested(s, a.end, Class::Octal);
        crate::shifting::literals::lemma_more_digits_moved(s, a.end, t, k, Class::Octal);
    }
    crate::nesting::forest::lemma_join_nested(
        s,
        p,
        a,
        literals::more_digits(s, a.end, Class::Octal),
    );
    lemma_moved_join(a, literals::more_digits(s, a.end, Class::Octal), k);
    let b = join(a, literals::more_digits(s, a.end, Class::Octal));
    lemma_moved_quiet(p, b, k);
}

/// `decimal_integer` does the same where the same text stands at another offset.
pub proof fn lemma_decimal_integer_moved(s: Seq<u8>, p: int, t: Seq<u8>, k: int)
    requires
        same_from(s, p, t, k),
    ensures
        literals::decimal_integer(t, p + k) == moved(literals::decimal_integer(s, p), k),
{
    lemma_one_nested(s, p, Class::NonZeroDigit);
    lemma_one_moved(s, p, t, k, Class::NonZeroDigit);
    let a = one(s, p, Class::NonZeroDigit);
    if a.ok {
        lemma_same_from_later(s, p, t, k, a.end);
        crate::nesting::literals::lemma_more_digits_nested(s, a.end, Class::Digit);
        crate::shifting::literals::lemma_more_digits_moved(s, a.end, t, k, Class::Digit);
    }
    crate::nesting::forest::lemma_join_nested(
        s,
        p,
        a,
        literals::more_digits(s, a.end, Class::Digit),
    );
    lemma_moved_join(a, literals::more_digits(s, a.end, Class::Digit), k);
    let b = join(a, literals::more_digits(s, a.end, Class::Digit));
    lemma_moved_quiet(p, b, k);
}

/// `literal_integer` does the same where the same text stands at another offset.
pub proof fn lemma_literal_integer_moved(s: Seq<u8>, p: int, t: Seq<u8>, k: int)
    requires
        same_from(s, p, t, k),
    ensures
        literals::literal_integer(t, p + k) == moved(literals::literal_integer(s, p), k),
{
    reveal(literals::literal_integer);
    crate::nesting::literals::lemma_radix_integer_nested(s, p, 0x64, 0x44, Class::Digit);
    crate::shifting::literals::lemma_radix_integer_moved(s, p, t, k, 0x64, 0x44, Class::Digit);
    crate::nesting::literals::lemma_radix_integer_nested(s, p, 0x78, 0x58, Class::Hex);
    crate::shifting::literals::lemma_radix_integer_moved(s, p, t, k, 0x78, 0x58, Class::Hex);
    crate::nesting::literals::lemma_radix_integer_nested(s, p, 0x62, 0x42, Class::Binary);
    crate::shifting::literals::lemma_radix_integer_moved(s, p, t, k, 0x62, 0x42, Class::Binary);
    crate::nesting::literals::lemma_radix_integer_nested(s, p, 0x6f, 0x4f, Class::Octal);
    crate::shifting::literals::lemma_radix_integer_moved(s, p, t, k, 0x6f, 0x4f, Class::Octal);
    crate::nesting::literals::lemma_zero_integer_nested(s, p);
    crate::shifting::literals::lemma_zero_integer_moved(s, p, t, k);
    crate::nesting::literals::lemma_decimal_integer_nested(s, p);
    crate::shifting::literals::lemma_decimal_integer_moved(s, p, t, k);
    lemma_moved_either(literals::zero_integer(s, p), literals::decimal_integer(s, p), k);
    lemma_moved_either(
        literals::radix_integer(s, p, 0x6f, 0x4f, Class::Octal),
        either(literals::zero_integer(s, p), literals::decimal_integer(s, p)),
        k,
    );
    lemma_moved_either(
        literals::radix_integer(s, p, 0x62, 0x42, Class::Binary),
        either(
            literals::radix_integer(s, p, 0x6f, 0x4f, Class::Octal),
            either(literals::zero_integer(s, p), literals::decimal_integer(s, p)),
        ),
        k,
    );
    lemma_moved_either(
        literals::radix_integer(s, p, 0x78, 0x58, Class::Hex),
        either(
            literals::radix_integer(s, p, 0x62, 0x42, Class::Binary),
            either(
                literals::radix_integer(s, p, 0x6f, 0x4f, Class::Octal),
                either(literals::zero_integer(s, p), literals::decimal_integer(s, p)),
            ),
        ),
        k,
    );
    lemma_moved_either(
        literals::radix_integer(s, p, 0x64, 0x44, Class::Digit),
        either(
            literals::radix_integer(s, p, 0x78, 0x58, Class::Hex),
            either(
                literals::radix_integer(s, p, 0x62, 0x42, Class::Binary),
                either(
                    literals::radix_integer(s, p, 0x6f, 0x4f, Class::Octal),
                    either(literals::zero_integer(s, p), literals::decimal_integer(s, p)),
                ),
            ),
        ),
        k,
    );
    let a = either(
        literals::radix_integer(s, p, 0x64, 0x44, Class::Digit),
        either(
            literals::radix_integer(s, p, 0x78, 0x58, Class::Hex),
            either(
                literals::radix_integer(s, p, 0x62, 0x42, Class::Binary),
                either(
                    literals::radix_integer(s, p, 0x6f, 0x4f, Class::Octal),
                    either(literals::zero_integer(s, p), literals::decimal_integer(s, p)),
                ),
            ),
        ),
    );
    lemma_moved_node(Rule::LiteralInteger, p, a, k);
}

/// `literal_boolean` does the same where the same text stands at another offset.
pub proof fn lemma_literal_boolean_moved(s: Seq<u8>, p: int, t: Seq<u8>, k: int)
    requires
        same_from(s, p, t, k),
    ensures
        literals::literal_boolean(t, p + k) == moved(literals::literal_boolean(s, p), k),
{
    reveal(literals::literal_boolean);
    lemma_literal_nested(s, p, "true".spec_bytes());
    lemma_literal_moved(s, p, t, k, "true".spec_bytes());
    lemma_literal_nested(s, p, "false".spec_bytes());
    lemma_literal_moved(s, p, t, k, "false".spec_bytes());
    lemma_moved_either(literal(s, p, "true".spec_bytes()), literal(s, p, "false".spec_bytes()), k);
    let a = either(literal(s, p, "true".spec_bytes()), literal(s, p, "false".spec_bytes()));
    lemma_moved_node(Rule::LiteralBoolean, p, a, k);
}

/// `literal_value` does the same where the same text stands at another offset.
pub proof fn lemma_literal_value_moved(s: Seq<u8>, p: int, t: Seq<u8>, k: int)
    requires
        same_from(s, p, t, k),
    ensures
        literals::literal_value(t, p + k) == moved(literals::literal_value(s, p), k),
{
    reveal(literals::literal_value);
    crate::nesting::literals::lemma_literal_string_nested(s, p);
    crate::shifting::literals::lemma_literal_string_moved(s, p, t, k);
    crate::nesting::literals::lemma_literal_symbol_nested(s, p);
    crate::shifting::literals::lemma_literal_symbol_moved(s, p, t, k);
    crate::nesting::literals::lemma_literal_integer_nested(s, p);
    crate::shifting::literals::lemma_literal_integer_moved(s, p, t, k);
    lemma_moved_either(literals::literal_symbol(s, p), literals::literal_integer(s, p), k);
    lemma_moved_either(
        literals::literal_string(s, p),
        either(literals::literal_symbol(s, p), literals::literal_integer(s, p)),
        k,
    );
    let a = either(
        literals::literal_string(s, p),
        either(literals::literal_symbol(s, p), literals::literal_integer(s, p)),
    );
    lemma_moved_node(Rule::Literal, p, a, k);
}

} // verus!
