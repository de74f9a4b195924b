use vstd::prelude::*;
use vstd::string::StringSliceAdditionalSpecFns;
use crate::grammar::lexical::{
    agreement, byte, keyword, lemma_agreement_bounds, lemma_run_end_bounds,
    lemma_trivia_end_bounds, literal, one, run_end, trivia, Class, COLON, COMMA, LEFT_BRACKET,
    LEFT_PAREN,
};
use crate::grammar::literals::literal_value;
use crate::grammar::names::{alias_name, class_name, interface_name, lower_ident, namespace};
use crate::grammar::types::{
    comma_type, more_types, spaced_type_arguments, type_alias_name, type_arguments,
    type_class_instance_name, type_expr, type_interface_name, type_list, type_singleton_class_name,
};
use crate::locality::agreeing::{at, lemma_agreement_at_least};
use crate::reach::literals::{lemma_literal_value_fail, lemma_literal_value_reach};
use crate::reach::names::{
    closer, lemma_agreement_in_run, lemma_alias_name_reach, lemma_class_name_reach,
    lemma_interface_name_reach, lemma_namespace_reach, lemma_segment_reach, lemma_settled_byte,
    lemma_upper_ident_reach, list_closer, next_token, settled,
};

verus! {

/// The bytes of the word `singleton`: nine lower-case letters.
pub proof fn lemma_singleton_word()
    ensures
        "singleton".spec_bytes() =~= seq![
            0x73u8,
            0x69u8,
            0x6eu8,
            0x67u8,
            0x6cu8,
            0x65u8,
            0x74u8,
            0x6fu8,
            0x6eu8,
        ],
{
    reveal_strlit("singleton");
    let s = "singleton";
    assert(s@.len() == 9);
    assert(vstd::string::is_ascii(s)) by {
        assert(vstd::utf8::is_ascii_chars(s@));
    }
    vstd::string::is_ascii_spec_bytes(s);
}

/// A run from a place inside it ends where the whole run ends.
pub proof fn lemma_run_end_from_inside(s: Seq<u8>, p: int, c: Class, x: int)
    requires
        0 <= p <= x <= run_end(s, p, c),
    ensures
        run_end(s, x, c) == run_end(s, p, c),
    decreases x - p,
{
    if p < x {
        if p < s.len() && c.has(s[p]) {
            lemma_run_end_from_inside(s, p + 1, c, x);
        }
    }
}

/// A keyword made of identifier bytes, tried where a lower-case
/// identifier stands: where it matches, the identifier is the keyword;
/// where it fails, it looked at most at the byte behind the identifier.
pub proof fn lemma_keyword_in_ident(s: Seq<u8>, q: int, word: Seq<u8>)
    requires
        0 <= q <= s.len(),
        lower_ident(s, q).ok,
        forall|i: int| 0 <= i < word.len() ==> Class::Word.has(#[trigger] word[i]),
    ensures
        keyword(s, q, word).ok ==> keyword(s, q, word).end == lower_ident(s, q).end,
        !keyword(s, q, word).ok ==> keyword(s, q, word).seen <= lower_ident(s, q).end + 1,
        q < lower_ident(s, q).end <= s.len(),
        lower_ident(s, q).seen == lower_ident(s, q).end + 1,
{
    let e = run_end(s, q + 1, Class::Word);
    lemma_run_end_bounds(s, q + 1, Class::Word);
    assert(lower_ident(s, q).end == e);
    assert(run_end(s, q, Class::Word) == e);
    lemma_agreement_in_run(s, q, word, 0);
    lemma_agreement_at_least(s, q, word, 0);
    lemma_agreement_bounds(s, q, word, 0);
    let m = agreement(s, q, word, 0);
    if m == word.len() {
        lemma_run_end_from_inside(s, q, Class::Word, q + m);
        lemma_run_end_bounds(s, q + m, Class::Word);
        if q + m < s.len() && Class::Word.has(s[q + m]) {
            lemma_run_end_bounds(s, q + m + 1, Class::Word);
        }
    }
}

/// The names fail on their first byte where no colon, letter or `_`
/// stands there.
pub proof fn lemma_names_fail(s: Seq<u8>, p: int)
    requires
        0 <= p <= s.len(),
        at(s, p) != Some(COLON),
        !(p < s.len() && Class::IdentStart.has(s[p])),
    ensures
        !class_name(s, p).ok && class_name(s, p).seen <= p + 1,
        !interface_name(s, p).ok && interface_name(s, p).seen <= p + 1,
        !alias_name(s, p).ok && alias_name(s, p).seen <= p + 1,
{
    reveal(class_name);
    reveal(interface_name);
    reveal(alias_name);
    lemma_namespace_reach(s, p);
    lemma_segment_reach(s, p);
    lemma_upper_ident_reach(s, p);
    assert(namespace(s, p).end == p) by {
        reveal(namespace);
        crate::reach::names::lemma_scope_word();
        lemma_agreement_at_least(s, p, "::".spec_bytes(), 0);
        lemma_agreement_bounds(s, p, "::".spec_bytes(), 0);
    }
}

/// A singleton type that matched looked at nothing behind its closing
/// parenthesis.
pub proof fn lemma_singleton_reach(s: Seq<u8>, p: int)
    requires
        0 <= p <= s.len(),
        type_singleton_class_name(s, p).ok,
    ensures
        p < type_singleton_class_name(s, p).end <= s.len(),
        type_singleton_class_name(s, p).seen <= type_singleton_class_name(s, p).end,
{
    reveal(type_singleton_class_name);
    let a = keyword(s, p, "singleton".spec_bytes());
    crate::nesting::forest::lemma_keyword_nested(s, p, "singleton".spec_bytes());
    let t1 = trivia(s, a.end);
    lemma_trivia_end_bounds(s, a.end, false);
    let open = byte(s, t1.end, LEFT_PAREN);
    let t2 = trivia(s, open.end);
    lemma_trivia_end_bounds(s, open.end, false);
    let name = class_name(s, t2.end);
    crate::nesting::names::lemma_class_name_nested(s, t2.end);
    let t3 = trivia(s, name.end);
    lemma_trivia_end_bounds(s, name.end, false);
    lemma_class_name_reach(s, t2.end);
    assert(settled(s, name.end));
    lemma_settled_byte(s, name.end);
}

/// A singleton type fails on its first byte where no `s` stands there.
pub proof fn lemma_singleton_fail(s: Seq<u8>, p: int)
    requires
        0 <= p <= s.len(),
        at(s, p) != Some(0x73u8),
    ensures
        !type_singleton_class_name(s, p).ok,
        type_singleton_class_name(s, p).seen == p + 1,
{
    reveal(type_singleton_class_name);
    lemma_singleton_word();
    lemma_agreement_at_least(s, p, "singleton".spec_bytes(), 0);
}

/// A singleton type that fails where a lower-case identifier stands, with
/// no opening parenthesis as the next token behind that identifier, looked
/// no further than that token.
pub proof fn lemma_singleton_fail_in_ident(s: Seq<u8>, p: int)
    requires
        0 <= p <= s.len(),
        lower_ident(s, p).ok,
        at(s, next_token(s, lower_ident(s, p).end)) != Some(LEFT_PAREN),
    ensures
        !type_singleton_class_name(s, p).ok,
        type_singleton_class_name(s, p).seen <= next_token(s, lower_ident(s, p).end) + 1,
{
    reveal(type_singleton_class_name);
    lemma_singleton_word();
    lemma_keyword_in_ident(s, p, "singleton".spec_bytes());
    lemma_trivia_end_bounds(s, lower_ident(s, p).end, false);
}

/// A type expression fails on its first byte where a closer stands there.
pub proof fn lemma_type_expr_fail(s: Seq<u8>, p: int)
    requires
        0 <= p <= s.len(),
        closer(s, p),
    ensures
        !type_expr(s, p).ok,
        type_expr(s, p).seen <= p + 1,
{
    reveal_with_fuel(type_expr, 1);
    reveal_with_fuel(spaced_type_arguments, 1);
    reveal_with_fuel(type_interface_name, 1);
    reveal_with_fuel(type_class_instance_name, 1);
    reveal_with_fuel(type_alias_name, 1);
    lemma_singleton_fail(s, p);
    lemma_names_fail(s, p);
    lemma_literal_value_fail(s, p);
}

/// A comma and a type fail behind their white space where no comma stands
/// there, having looked at that byte and no further.
pub proof fn lemma_comma_type_fail(s: Seq<u8>, p: int)
    requires
        0 <= p <= s.len(),
        at(s, next_token(s, p)) != Some(COMMA),
    ensures
        !comma_type(s, p).ok,
        comma_type(s, p).seen == next_token(s, p) + 1,
{
    reveal_with_fuel(comma_type, 1);
    reveal_with_fuel(type_expr, 1);
    lemma_trivia_end_bounds(s, p, false);
}

/// White space and type arguments fail behind the white space where no
/// opening bracket stands there, having looked at that byte and no
/// further.
pub proof fn lemma_spaced_type_arguments_fail(s: Seq<u8>, p: int)
    requires
        0 <= p <= s.len(),
        at(s, next_token(s, p)) != Some(LEFT_BRACKET),
    ensures
        !spaced_type_arguments(s, p).ok,
        spaced_type_arguments(s, p).seen == next_token(s, p) + 1,
{
    reveal_with_fuel(spaced_type_arguments, 1);
    reveal_with_fuel(type_list, 1);
    reveal_with_fuel(type_arguments, 1);
    lemma_trivia_end_bounds(s, p, false);
}

/// A type expression that matched in front of a settled place looked no
/// further than the next token.
pub proof fn lemma_type_expr_reach(s: Seq<u8>, p: int)
    requires
        0 <= p <= s.len(),
        type_expr(s, p).ok,
        settled(s, type_expr(s, p).end),
    ensures
        p < type_expr(s, p).end <= s.len(),
        type_expr(s, p).seen <= next_token(s, type_expr(s, p).end) + 1,
    decreases s.len() - p, 5int,
{
    reveal_with_fuel(type_expr, 1);
    reveal_with_fuel(spaced_type_arguments, 1);
    let e = type_expr(s, p).end;
    crate::nesting::types::lemma_type_expr_nested(s, p);
    lemma_namespace_reach(s, p);
    lemma_trivia_end_bounds(s, e, false);
    let single = type_singleton_class_name(s, p);
    let iface = type_interface_name(s, p);
    let class = type_class_instance_name(s, p);
    let alias = type_alias_name(s, p);
    if single.ok {
        lemma_singleton_reach(s, p);
    } else if iface.ok {
        reveal_with_fuel(type_interface_name, 1);
        lemma_type_interface_name_reach(s, p);
        lemma_interface_starts(s, p);
        lemma_singleton_fail(s, p);
    } else if class.ok {
        reveal_with_fuel(type_class_instance_name, 1);
        reveal_with_fuel(type_interface_name, 1);
        lemma_type_class_instance_name_reach(s, p);
        lemma_class_starts(s, p);
        lemma_singleton_fail(s, p);
    } else if alias.ok {
        reveal_with_fuel(type_alias_name, 1);
        reveal_with_fuel(type_class_instance_name, 1);
        reveal_with_fuel(type_interface_name, 1);
        lemma_type_alias_name_reach(s, p);
        lemma_alias_starts(s, p);
        if namespace(s, p).end == p {
            let name = alias_name(s, p);
            assert(lower_ident(s, p).ok && name.end == lower_ident(s, p).end) by {
                reveal(alias_name);
            }
            if spaced_type_arguments(s, name.end).ok {
                lemma_spaced_type_arguments_starts(s, name.end);
            } else {
                lemma_settled_byte(s, name.end);
            }
            lemma_singleton_fail_in_ident(s, p);
        } else {
            lemma_singleton_fail(s, p);
        }
    } else {
        reveal_with_fuel(type_alias_name, 1);
        reveal_with_fuel(type_class_instance_name, 1);
        reveal_with_fuel(type_interface_name, 1);
        lemma_literal_value_reach(s, p);
        lemma_literal_starts(s, p);
        lemma_singleton_fail(s, p);
    }
}

/// Where white space and type arguments match, an opening bracket is the
/// next token, and they end at least two bytes behind it.
pub proof fn lemma_spaced_type_arguments_starts(s: Seq<u8>, p: int)
    requires
        0 <= p <= s.len(),
        spaced_type_arguments(s, p).ok,
    ensures
        at(s, next_token(s, p)) == Some(LEFT_BRACKET),
        spaced_type_arguments(s, p).end >= next_token(s, p) + 2,
        spaced_type_arguments(s, p).end <= s.len(),
{
    reveal_with_fuel(spaced_type_arguments, 1);
    reveal_with_fuel(type_list, 1);
    reveal_with_fuel(type_arguments, 1);
    lemma_trivia_end_bounds(s, p, false);
    let t = next_token(s, p);
    crate::nesting::types::lemma_type_arguments_nested(s, t);
    lemma_trivia_end_bounds(s, t + 1, false);
    crate::nesting::types::lemma_type_list_nested(s, trivia(s, t + 1).end);
    let list = type_list(s, trivia(s, t + 1).end);
    if list.ok {
        lemma_trivia_end_bounds(s, list.end, false);
    }
}

/// Where an interface name matches, the names before it in the order of a
/// type expression have failed on bytes inside it, and no `s` stands at
/// its start.
pub proof fn lemma_interface_starts(s: Seq<u8>, p: int)
    requires
        0 <= p <= s.len(),
        interface_name(s, p).ok,
    ensures
        at(s, p) != Some(0x73u8),
{
    reveal(interface_name);
    lemma_namespace_reach(s, p);
    lemma_namespace_starts(s, p);
}

/// A namespace that is not empty starts with a colon or an upper-case
/// letter.
pub proof fn lemma_namespace_starts(s: Seq<u8>, p: int)
    requires
        0 <= p <= s.len(),
    ensures
        namespace(s, p).end > p ==> at(s, p) == Some(COLON) || (p < s.len() && Class::Upper.has(
            s[p],
        )),
{
    reveal(namespace);
    crate::reach::names::lemma_scope_word();
    lemma_agreement_at_least(s, p, "::".spec_bytes(), 0);
    lemma_agreement_bounds(s, p, "::".spec_bytes(), 0);
    assert(agreement(s, p, "::".spec_bytes(), 0) >= 1 ==> at(s, p) == Some(COLON));
}

/// Where a class name matches, the interface name at the same place has
/// failed on a byte inside the class name, and no `s` stands at the start.
pub proof fn lemma_class_starts(s: Seq<u8>, p: int)
    requires
        0 <= p <= s.len(),
        class_name(s, p).ok,
    ensures
        at(s, p) != Some(0x73u8),
        !interface_name(s, p).ok,
        interface_name(s, p).seen <= class_name(s, p).seen,
{
    reveal(class_name);
    reveal(interface_name);
    lemma_namespace_reach(s, p);
    lemma_namespace_starts(s, p);
    lemma_upper_ident_reach(s, namespace(s, p).end);
}

/// Where an alias name matches, the interface name and the class name at
/// the same place have failed on bytes inside the alias name.
pub proof fn lemma_alias_starts(s: Seq<u8>, p: int)
    requires
        0 <= p <= s.len(),
        alias_name(s, p).ok,
    ensures
        namespace(s, p).end > p ==> at(s, p) != Some(0x73u8),
        !interface_name(s, p).ok,
        interface_name(s, p).seen <= alias_name(s, p).seen,
        !class_name(s, p).ok,
        class_name(s, p).seen <= alias_name(s, p).seen,
{
    reveal(class_name);
    reveal(interface_name);
    reveal(alias_name);
    lemma_namespace_reach(s, p);
    lemma_namespace_starts(s, p);
    lemma_upper_ident_reach(s, namespace(s, p).end);
}

/// Where a literal matches, the names at the same place have failed on
/// bytes inside the literal, and no `s` stands at the start.
pub proof fn lemma_literal_starts(s: Seq<u8>, p: int)
    requires
        0 <= p <= s.len(),
        literal_value(s, p).ok,
    ensures
        at(s, p) != Some(0x73u8),
        !class_name(s, p).ok && class_name(s, p).seen <= literal_value(s, p).end,
        !interface_name(s, p).ok && interface_name(s, p).seen <= literal_value(s, p).end,
        !alias_name(s, p).ok && alias_name(s, p).seen <= literal_value(s, p).end,
{
    if at(s, p) != Some(COLON) {
        if p < s.len() && Class::IdentStart.has(s[p]) {
            lemma_literal_value_fail(s, p);
        }
        lemma_names_fail(s, p);
        crate::nesting::literals::lemma_literal_value_nested(s, p);
        assert(literal_value(s, p).end > p) by {
            reveal(literal_value);
            crate::reach::literals::lemma_literal_string_reach(s, p);
            crate::reach::literals::lemma_literal_symbol_reach(s, p);
            crate::nesting::literals::lemma_literal_integer_nested(s, p);
            if p >= s.len() || !Class::Digit.has(s[p]) {
                crate::reach::literals::lemma_literal_integer_fail(s, p);
            } else {
                reveal(crate::grammar::literals::literal_integer);
                crate::reach::literals::lemma_radix_integer_reach(s, p, 0x64, 0x44, Class::Digit);
                crate::reach::literals::lemma_radix_integer_reach(s, p, 0x78, 0x58, Class::Hex);
                crate::reach::literals::lemma_radix_integer_reach(
                    s,
                    p,
                    0x62,
                    0x42,
                    Class::Binary,
                );
                crate::reach::literals::lemma_radix_integer_reach(s, p, 0x6f, 0x4f, Class::Octal);
                crate::reach::literals::lemma_more_digits_reach(s, p + 1, Class::Octal);
                crate::reach::literals::lemma_more_digits_reach(s, p + 1, Class::Digit);
            }
        }
    } else {
        lemma_symbol_starts(s, p);
    }
}

/// Where a symbol literal matches, the names at the same place have
/// failed on one of its first two bytes.
pub proof fn lemma_symbol_starts(s: Seq<u8>, p: int)
    requires
        0 <= p <= s.len(),
        literal_value(s, p).ok,
        at(s, p) == Some(COLON),
    ensures
        !class_name(s, p).ok && class_name(s, p).seen <= literal_value(s, p).end,
        !interface_name(s, p).ok && interface_name(s, p).seen <= literal_value(s, p).end,
        !alias_name(s, p).ok && alias_name(s, p).seen <= literal_value(s, p).end,
{
    reveal(literal_value);
    reveal(crate::grammar::literals::literal_symbol);
    reveal(class_name);
    reveal(interface_name);
    reveal(alias_name);
    reveal(namespace);
    crate::reach::literals::lemma_literal_string_reach(s, p);
    crate::reach::literals::lemma_literal_integer_fail(s, p);
    crate::reach::literals::lemma_literal_string_reach(s, p + 1);
    crate::reach::names::lemma_scope_word();
    let word = "::".spec_bytes();
    lemma_agreement_at_least(s, p, word, 0);
    lemma_agreement_bounds(s, p, word, 0);
    if p + 1 < s.len() {
        lemma_run_end_bounds(s, p + 2, Class::SymbolChar);
    }
    assert(at(s, p + 1) != Some(COLON));
    assert(agreement(s, p, word, 0) == 1) by {
        reveal_with_fuel(agreement, 3);
    }
    crate::reach::names::lemma_segments_reach(s, p);
    lemma_segment_reach(s, p);
    lemma_upper_ident_reach(s, p);
    assert(crate::grammar::names::segments(s, p).end == p);
}

/// A class name with optional type arguments that matched looked at
/// nothing behind its type arguments where it has them, and no further
/// than the next token where it stands in front of a settled place.
pub proof fn lemma_type_class_instance_name_reach(s: Seq<u8>, p: int)
    requires
        0 <= p <= s.len(),
        type_class_instance_name(s, p).ok,
    ensures
        p < type_class_instance_name(s, p).end <= s.len(),
        spaced_type_arguments(s, class_name(s, p).end).ok ==> type_class_instance_name(
            s,
            p,
        ).seen <= type_class_instance_name(s, p).end,
        settled(s, type_class_instance_name(s, p).end) ==> type_class_instance_name(s, p).seen
            <= next_token(s, type_class_instance_name(s, p).end) + 1,
    decreases s.len() - p, 4int,
{
    reveal_with_fuel(type_class_instance_name, 1);
    reveal_with_fuel(spaced_type_arguments, 1);
    let name = class_name(s, p);
    lemma_class_name_reach(s, p);
    let args = spaced_type_arguments(s, name.end);
    lemma_trivia_end_bounds(s, name.end, false);
    if args.ok {
        lemma_spaced_type_arguments_reach(s, name.end);
        lemma_spaced_type_arguments_starts(s, name.end);
        lemma_trivia_end_bounds(s, args.end, false);
    } else if settled(s, name.end) {
        lemma_settled_byte(s, name.end);
        lemma_spaced_type_arguments_fail(s, name.end);
    }
}

/// An interface name with optional type arguments: as for a class name.
pub proof fn lemma_type_interface_name_reach(s: Seq<u8>, p: int)
    requires
        0 <= p <= s.len(),
        type_interface_name(s, p).ok,
    ensures
        p < type_interface_name(s, p).end <= s.len(),
        spaced_type_arguments(s, interface_name(s, p).end).ok ==> type_interface_name(s, p).seen
            <= type_interface_name(s, p).end,
        settled(s, type_interface_name(s, p).end) ==> type_interface_name(s, p).seen
            <= next_token(s, type_interface_name(s, p).end) + 1,
    decreases s.len() - p, 4int,
{
    reveal_with_fuel(type_interface_name, 1);
    reveal_with_fuel(spaced_type_arguments, 1);
    let name = interface_name(s, p);
    lemma_interface_name_reach(s, p);
    let args = spaced_type_arguments(s, name.end);
    lemma_trivia_end_bounds(s, name.end, false);
    if args.ok {
        lemma_spaced_type_arguments_reach(s, name.end);
        lemma_spaced_type_arguments_starts(s, name.end);
        lemma_trivia_end_bounds(s, args.end, false);
    } else if settled(s, name.end) {
        lemma_settled_byte(s, name.end);
        lemma_spaced_type_arguments_fail(s, name.end);
    }
}

/// An alias name with optional type arguments: as for a class name.
pub proof fn lemma_type_alias_name_reach(s: Seq<u8>, p: int)
    requires
        0 <= p <= s.len(),
        type_alias_name(s, p).ok,
    ensures
        p < type_alias_name(s, p).end <= s.len(),
        spaced_type_arguments(s, alias_name(s, p).end).ok ==> type_alias_name(s, p).seen
            <= type_alias_name(s, p).end,
        settled(s, type_alias_name(s, p).end) ==> type_alias_name(s, p).seen <= next_token(
            s,
            type_alias_name(s, p).end,
        ) + 1,
    decreases s.len() - p, 4int,
{
    reveal_with_fuel(type_alias_name, 1);
    reveal_with_fuel(spaced_type_arguments, 1);
    let name = alias_name(s, p);
    lemma_alias_name_reach(s, p);
    let args = spaced_type_arguments(s, name.end);
    lemma_trivia_end_bounds(s, name.end, false);
    if args.ok {
        lemma_spaced_type_arguments_reach(s, name.end);
        lemma_spaced_type_arguments_starts(s, name.end);
        lemma_trivia_end_bounds(s, args.end, false);
    } else if settled(s, name.end) {
        lemma_settled_byte(s, name.end);
        lemma_spaced_type_arguments_fail(s, name.end);
    }
}

/// White space and type arguments that matched looked at nothing behind
/// the closing bracket.
pub proof fn lemma_spaced_type_arguments_reach(s: Seq<u8>, p: int)
    requires
        0 <= p <= s.len(),
        spaced_type_arguments(s, p).ok,
    ensures
        spaced_type_arguments(s, p).seen <= spaced_type_arguments(s, p).end,
    decreases s.len() - p, 3int,
{
    reveal_with_fuel(spaced_type_arguments, 1);
    reveal_with_fuel(type_arguments, 1);
    lemma_trivia_end_bounds(s, p, false);
    lemma_type_arguments_reach(s, next_token(s, p));
}

/// Type arguments that matched looked at nothing behind the closing
/// bracket.
pub proof fn lemma_type_arguments_reach(s: Seq<u8>, p: int)
    requires
        0 <= p <= s.len(),
        type_arguments(s, p).ok,
    ensures
        p + 2 <= type_arguments(s, p).end <= s.len(),
        type_arguments(s, p).seen <= type_arguments(s, p).end,
    decreases s.len() - p, 2int,
{
    reveal_with_fuel(type_arguments, 1);
    reveal_with_fuel(type_list, 1);
    lemma_trivia_end_bounds(s, p + 1, false);
    let q = trivia(s, p + 1).end;
    let list = type_list(s, q);
    crate::nesting::types::lemma_type_list_nested(s, q);
    lemma_trivia_end_bounds(s, list.end, false);
    lemma_type_list_reach(s, q);
}

/// Types between commas that matched in front of something that closes a
/// list looked no further than that.
pub proof fn lemma_type_list_reach(s: Seq<u8>, p: int)
    requires
        0 <= p <= s.len(),
        type_list(s, p).ok,
        list_closer(s, next_token(s, type_list(s, p).end)),
    ensures
        type_list(s, p).seen <= next_token(s, type_list(s, p).end) + 1,
    decreases s.len() - p, 6int,
{
    reveal_with_fuel(type_list, 1);
    reveal_with_fuel(type_expr, 1);
    reveal_with_fuel(more_types, 1);
    let first = type_expr(s, p);
    crate::nesting::types::lemma_type_expr_nested(s, p);
    let rest = more_types(s, first.end);
    lemma_more_types_reach(s, first.end);
    lemma_trivia_end_bounds(s, first.end, false);
    lemma_type_expr_reach(s, p);
}

/// A comma and a type that matched in front of a settled place looked no
/// further than the next token.
pub proof fn lemma_comma_type_reach(s: Seq<u8>, p: int)
    requires
        0 <= p <= s.len(),
        comma_type(s, p).ok,
        settled(s, comma_type(s, p).end),
    ensures
        at(s, next_token(s, p)) == Some(COMMA),
        next_token(s, p) < comma_type(s, p).end <= s.len(),
        comma_type(s, p).seen <= next_token(s, comma_type(s, p).end) + 1,
    decreases s.len() - p, 0int,
{
    reveal_with_fuel(comma_type, 1);
    reveal_with_fuel(type_expr, 1);
    lemma_trivia_end_bounds(s, p, false);
    let t = next_token(s, p);
    lemma_trivia_end_bounds(s, t + 1, false);
    let q = trivia(s, t + 1).end;
    lemma_type_expr_reach(s, q);
    lemma_trivia_end_bounds(s, type_expr(s, q).end, false);
}

/// Further types, each behind a comma, in front of something that closes
/// a list: they looked no further than that, and each of them, and what
/// stands before them, stands in front of a settled place.
pub proof fn lemma_more_types_reach(s: Seq<u8>, p: int)
    requires
        0 <= p <= s.len(),
        list_closer(s, next_token(s, more_types(s, p).end)),
    ensures
        more_types(s, p).ok,
        p <= more_types(s, p).end <= s.len(),
        settled(s, p),
        next_token(s, p) <= next_token(s, more_types(s, p).end),
        more_types(s, p).seen <= next_token(s, more_types(s, p).end) + 1,
    decreases s.len() - p, 1int,
{
    reveal_with_fuel(more_types, 1);
    reveal_with_fuel(type_expr, 1);
    reveal_with_fuel(comma_type, 1);
    let item = comma_type(s, p);
    lemma_trivia_end_bounds(s, p, false);
    if item.ok && p < item.end <= s.len() {
        lemma_more_types_reach(s, item.end);
        lemma_comma_type_reach(s, p);
        lemma_trivia_end_bounds(s, item.end, false);
    } else {
        crate::nesting::types::lemma_comma_type_nested(s, p);
        if item.ok {
            lemma_comma_type_progress(s, p);
        }
        lemma_comma_type_fail(s, p);
    }
}

/// A comma and a type that matched are not empty.
pub proof fn lemma_comma_type_progress(s: Seq<u8>, p: int)
    requires
        0 <= p <= s.len(),
        comma_type(s, p).ok,
    ensures
        p < comma_type(s, p).end <= s.len(),
{
    reveal_with_fuel(comma_type, 1);
    reveal_with_fuel(type_expr, 1);
    lemma_trivia_end_bounds(s, p, false);
    let t = next_token(s, p);
    lemma_trivia_end_bounds(s, t + 1, false);
    crate::nesting::types::lemma_type_expr_nested(s, trivia(s, t + 1).end);
}

} // verus!
