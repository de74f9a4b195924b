use vstd::prelude::*;
use vstd::string::StringSliceAdditionalSpecFns;
use vstd::utf8::{
    encode_utf8_valid_utf8, is_char_boundary, is_leading_byte_width_1, pop_first_scalar,
    valid_utf8,
};
use crate::context::Context;
use crate::grammar::lexical::literal;
use crate::grammar::literals::literal_boolean;
use crate::grammar::step::max;
use crate::rule::Rule;
use crate::locality::agreeing::lemma_agreement_full;
use crate::tree::SyntaxError;

verus! {

/// The value of a boolean literal.
#[derive(Clone, Copy, Debug, PartialEq, Eq, PartialOrd, Ord)]
pub enum Node {
    True,
    False,
}

/// What reading a boolean literal at the start of the input `s` returns:
/// the text behind the literal, and `True` exactly when the literal is
/// `true`; or, where `s` starts with neither word, the error with the
/// offset at which the two attempts got stuck.
pub open spec fn boolean_read(r: Result<(&str, Node), SyntaxError>, s: Seq<u8>) -> bool {
    let st = literal_boolean(s, 0);
    match r {
        Ok((rest, value)) => {
            &&& st.ok
            &&& rest.spec_bytes() == s.subrange(st.end, s.len() as int)
            &&& (value is True) == literal(s, 0, "true".spec_bytes()).ok
        },
        Err(e) => {
            &&& !st.ok
            &&& e.rule == Rule::LiteralBoolean
            &&& e.offset == max(0, st.seen - 1)
        },
    }
}

/// In well-formed text, the place behind a run of one-byte characters at
/// the start is a place between two characters.
pub proof fn lemma_boundary_behind_ascii(bytes: Seq<u8>, n: int)
    requires
        valid_utf8(bytes),
        0 <= n <= bytes.len(),
        forall|i: int| 0 <= i < n ==> is_leading_byte_width_1(#[trigger] bytes[i]),
    ensures
        is_char_boundary(bytes, n),
    decreases n,
{
    if n > 0 {
        assert(is_leading_byte_width_1(bytes[0]));
        let rest = pop_first_scalar(bytes);
        assert(rest =~= bytes.subrange(1, bytes.len() as int));
        assert forall|i: int| 0 <= i < n - 1 implies is_leading_byte_width_1(
            #[trigger] rest[i],
        ) by {
            assert(rest[i] == bytes[i + 1]);
        }
        lemma_boundary_behind_ascii(rest, n - 1);
    }
}

/// The place behind a boolean literal at the start of well-formed text is
/// a place between two characters.
pub proof fn lemma_boundary_behind_boolean(bytes: Seq<u8>, word: Seq<u8>)
    requires
        valid_utf8(bytes),
        literal(bytes, 0, word).ok,
        forall|i: int| 0 <= i < word.len() ==> is_leading_byte_width_1(#[trigger] word[i]),
    ensures
        is_char_boundary(bytes, literal(bytes, 0, word).end),
{
    assert forall|i: int| 0 <= i < word.len() implies 0 <= i < bytes.len()
        && is_leading_byte_width_1(#[trigger] bytes[i]) by {
        lemma_agreement_full(bytes, 0, word, 0, i);
        assert(is_leading_byte_width_1(word[i]));
    }
    crate::grammar::lexical::lemma_agreement_bounds(bytes, 0, word, 0);
    lemma_boundary_behind_ascii(bytes, word.len() as int);
}

/// The bytes of the words `true` and `false` are one-byte characters.
pub proof fn lemma_boolean_words()
    ensures
        forall|i: int|
            0 <= i < "true".spec_bytes().len() ==> is_leading_byte_width_1(
                #[trigger] "true".spec_bytes()[i],
            ),
        forall|i: int|
            0 <= i < "false".spec_bytes().len() ==> is_leading_byte_width_1(
                #[trigger] "false".spec_bytes()[i],
            ),
{
    reveal_strlit("true");
    reveal_strlit("false");
    let t = "true";
    let f = "false";
    assert(vstd::string::is_ascii(t)) by {
        assert(vstd::utf8::is_ascii_chars(t@));
    }
    assert(vstd::string::is_ascii(f)) by {
        assert(vstd::utf8::is_ascii_chars(f@));
    }
    vstd::string::is_ascii_spec_bytes(t);
    vstd::string::is_ascii_spec_bytes(f);
    assert(t.spec_bytes() =~= seq![0x74u8, 0x72u8, 0x75u8, 0x65u8]);
    assert(f.spec_bytes() =~= seq![0x66u8, 0x61u8, 0x6cu8, 0x73u8, 0x65u8]);
}

/// Reads `true` or `false` at the start of `input` and hands back the
/// value with the rest of the text.
pub fn parse_boolean(input: &str) -> (r: Result<(&str, Node), SyntaxError>)
    ensures
        boolean_read(r, input.spec_bytes()),
{
    proof {
        reveal(literal_boolean);
        lemma_boolean_words();
        encode_utf8_valid_utf8(input@);
    }
    let mut ctx = Context::new(input);
    let value = if ctx.literal("true") {
        proof {
            lemma_boundary_behind_boolean(input.spec_bytes(), "true".spec_bytes());
        }
        Node::True
    } else if ctx.literal("false") {
        proof {
            lemma_boundary_behind_boolean(input.spec_bytes(), "false".spec_bytes());
        }
        Node::False
    } else {
        return Err(SyntaxError { rule: Rule::LiteralBoolean, offset: ctx.furthest });
    };
    let (_, rest) = input.split_at(ctx.current_offset);
    Ok((rest, value))
}

/// Reads a literal at the start of `input`: a boolean.
pub fn parse_literal(input: &str) -> (r: Result<(&str, Node), SyntaxError>)
    ensures
        boolean_read(r, input.spec_bytes()),
{
    parse_boolean(input)
}

/// Reads a boolean literal at the start of `input`.
pub fn parse(input: &str) -> (r: Result<(&str, Node), SyntaxError>)
    ensures
        boolean_read(r, input.spec_bytes()),
{
    parse_literal(input)
}

} // verus!
