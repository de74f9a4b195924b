use vstd::prelude::*;
use vstd::string::StringSliceAdditionalSpecFns;
use crate::grammar::lexical::{
    agreement, byte, lemma_agreement_bounds, lemma_run_end_bounds, lemma_trivia_end_bounds,
    literal, one, run, run_end, trivia_end, Class, COLON, COMMA, HASH, RIGHT_BRACKET, RIGHT_PAREN,
};
use crate::grammar::names::{
    alias_name, class_name, interface_name, lemma_segment_bounds, namespace, segment, segments,
    upper_ident,
};
use crate::grammar::step::{max, opt};
use crate::locality::agreeing::{at, lemma_agreement_at_least};

verus! {

/// Whether what stands at `t` in `s` closes or separates what came before
/// it: a comma, a closing bracket or parenthesis, or the end of the input.
pub open spec fn closer(s: Seq<u8>, t: int) -> bool {
    at(s, t) matches Some(b) ==> b == COMMA || b == RIGHT_PAREN || b == RIGHT_BRACKET
}

/// Whether what stands at `t` in `s` closes a list: a closing bracket or
/// parenthesis, or the end of the input.
pub open spec fn list_closer(s: Seq<u8>, t: int) -> bool {
    at(s, t) matches Some(b) ==> b == RIGHT_PAREN || b == RIGHT_BRACKET
}

/// Where the white space behind `e` ends: where the next token, if any,
/// stands.
pub open spec fn next_token(s: Seq<u8>, e: int) -> int {
    trivia_end(s, e, false)
}

/// Whether a match that ends at `e` is followed, behind white space, by a
/// closer.
pub open spec fn settled(s: Seq<u8>, e: int) -> bool {
    closer(s, next_token(s, e))
}

/// What stands right behind a settled match is white space, the start of
/// a comment, a closer or nothing.
pub proof fn lemma_settled_byte(s: Seq<u8>, e: int)
    requires
        0 <= e <= s.len(),
        settled(s, e),
    ensures
        e <= next_token(s, e) <= s.len(),
        e < s.len() ==> Class::Space.has(s[e]) || s[e] == HASH || (next_token(s, e) == e && (s[e]
            == COMMA || s[e] == RIGHT_PAREN || s[e] == RIGHT_BRACKET)),
{
    lemma_trivia_end_bounds(s, e, false);
}

/// The bytes of the word `::`.
pub proof fn lemma_scope_word()
    ensures
        "::".spec_bytes() =~= seq![COLON, COLON],
{
    reveal_strlit("::");
    let s = "::";
    assert(s@.len() == 2);
    assert(vstd::string::is_ascii(s)) by {
        assert(vstd::utf8::is_ascii_chars(s@));
    }
    vstd::string::is_ascii_spec_bytes(s);
}

/// An upper-case identifier that matched looked at the byte behind it and
/// no further.
pub proof fn lemma_upper_ident_reach(s: Seq<u8>, p: int)
    requires
        0 <= p <= s.len(),
    ensures
        upper_ident(s, p).ok ==> p < upper_ident(s, p).end <= s.len() && upper_ident(s, p).seen
            == upper_ident(s, p).end + 1 && !(upper_ident(s, p).end < s.len() && Class::Word.has(
            s[upper_ident(s, p).end],
        )),
        !upper_ident(s, p).ok ==> upper_ident(s, p).seen == p + 1,
{
    if p < s.len() {
        lemma_run_end_bounds(s, p + 1, Class::Word);
        lemma_run_stops(s, p + 1, Class::Word);
    }
}

/// A run stops in front of a byte that is not of its class, or at the end.
pub proof fn lemma_run_stops(s: Seq<u8>, p: int, c: Class)
    requires
        0 <= p <= s.len(),
    ensures
        !(run_end(s, p, c) < s.len() && c.has(s[run_end(s, p, c)])),
    decreases s.len() - p,
{
    if p < s.len() && c.has(s[p]) {
        lemma_run_stops(s, p + 1, c);
    }
}

/// A namespace segment that matched looked at nothing behind it; one that
/// failed behind an upper-case identifier looked at most two bytes behind
/// that identifier, and one byte only where no colon stands there.
pub proof fn lemma_segment_reach(s: Seq<u8>, p: int)
    requires
        0 <= p <= s.len(),
    ensures
        segment(s, p).ok ==> segment(s, p).seen <= segment(s, p).end,
        !segment(s, p).ok && upper_ident(s, p).ok ==> segment(s, p).seen <= upper_ident(
            s,
            p,
        ).end + 2,
        !segment(s, p).ok && upper_ident(s, p).ok && at(s, upper_ident(s, p).end) != Some(
            COLON,
        ) ==> segment(s, p).seen <= upper_ident(s, p).end + 1,
        !upper_ident(s, p).ok ==> !segment(s, p).ok && segment(s, p).seen == p + 1,
{
    lemma_scope_word();
    lemma_upper_ident_reach(s, p);
    let name = upper_ident(s, p);
    if name.ok {
        let word = "::".spec_bytes();
        lemma_agreement_bounds(s, name.end, word, 0);
        lemma_agreement_at_least(s, name.end, word, 0);
        assert(agreement(s, name.end, word, 0) >= 1 ==> at(s, name.end) == Some(COLON));
    }
}

/// Namespace segments looked at nothing behind their end but what the
/// attempt at one more segment looked at, which failed.
pub proof fn lemma_segments_reach(s: Seq<u8>, p: int)
    requires
        0 <= p <= s.len(),
    ensures
        segments(s, p).ok,
        p <= segments(s, p).end <= s.len(),
        !segment(s, segments(s, p).end).ok,
        segments(s, p).seen <= max(
            segments(s, p).end,
            segment(s, segments(s, p).end).seen,
        ),
    decreases s.len() - p,
{
    let first = segment(s, p);
    lemma_segment_reach(s, p);
    if first.ok {
        lemma_segment_bounds(s, p);
        lemma_segments_reach(s, first.end);
    }
}

/// The namespace in front of a name: where it ends, no further segment
/// matches, and it looked at nothing behind its end but what the attempt
/// at one more segment looked at, or the attempt at a leading `::`.
pub proof fn lemma_namespace_reach(s: Seq<u8>, p: int)
    requires
        0 <= p <= s.len(),
    ensures
        namespace(s, p).ok,
        p <= namespace(s, p).end <= s.len(),
        !segment(s, namespace(s, p).end).ok,
        namespace(s, p).seen <= max(
            max(namespace(s, p).end, p + 2),
            segment(s, namespace(s, p).end).seen,
        ),
        namespace(s, p).end == p && at(s, p) != Some(COLON) ==> namespace(s, p).seen <= max(
            p + 1,
            segment(s, p).seen,
        ),
{
    reveal(namespace);
    lemma_scope_word();
    let word = "::".spec_bytes();
    lemma_agreement_bounds(s, p, word, 0);
    lemma_agreement_at_least(s, p, word, 0);
    let root = opt(p, literal(s, p, word));
    assert(agreement(s, p, word, 0) >= 1 ==> at(s, p) == Some(COLON));
    lemma_segments_reach(s, root.end);
}

/// A class name that matched looked at most two bytes behind its end, and
/// one byte only where no colon stands there.
pub proof fn lemma_class_name_reach(s: Seq<u8>, p: int)
    requires
        0 <= p <= s.len(),
        class_name(s, p).ok,
    ensures
        p < class_name(s, p).end <= s.len(),
        class_name(s, p).seen <= class_name(s, p).end + 2,
        at(s, class_name(s, p).end) != Some(COLON) ==> class_name(s, p).seen <= class_name(
            s,
            p,
        ).end + 1,
{
    reveal(class_name);
    lemma_namespace_reach(s, p);
    let ns = namespace(s, p);
    lemma_segment_reach(s, ns.end);
    lemma_upper_ident_reach(s, ns.end);
}

/// An interface name that matched looked at the byte behind its end and no
/// further.
pub proof fn lemma_interface_name_reach(s: Seq<u8>, p: int)
    requires
        0 <= p <= s.len(),
        interface_name(s, p).ok,
    ensures
        p < interface_name(s, p).end <= s.len(),
        interface_name(s, p).seen <= interface_name(s, p).end + 1,
{
    reveal(interface_name);
    lemma_namespace_reach(s, p);
    let ns = namespace(s, p);
    lemma_segment_reach(s, ns.end);
    lemma_upper_ident_reach(s, ns.end);
    lemma_run_end_bounds(s, ns.end + 2, Class::Word);
}

/// An alias name that matched looked at the byte behind its end and no
/// further.
pub proof fn lemma_alias_name_reach(s: Seq<u8>, p: int)
    requires
        0 <= p <= s.len(),
        alias_name(s, p).ok,
    ensures
        p < alias_name(s, p).end <= s.len(),
        alias_name(s, p).seen <= alias_name(s, p).end + 1,
{
    reveal(alias_name);
    lemma_namespace_reach(s, p);
    let ns = namespace(s, p);
    lemma_segment_reach(s, ns.end);
    lemma_upper_ident_reach(s, ns.end);
    lemma_run_end_bounds(s, ns.end + 1, Class::Word);
}

/// The part of a word made of identifier bytes that stands in the input
/// lies inside the run of identifier bytes there.
pub proof fn lemma_agreement_in_run(s: Seq<u8>, p: int, word: Seq<u8>, j: int)
    requires
        0 <= j <= word.len(),
        0 <= p,
        p + j <= s.len(),
        forall|i: int| 0 <= i < word.len() ==> Class::Word.has(#[trigger] word[i]),
    ensures
        p + agreement(s, p, word, j) <= run_end(s, p + j, Class::Word),
    decreases word.len() - j,
{
    lemma_run_end_bounds(s, p + j, Class::Word);
    if j < word.len() && p + j < s.len() && s[p + j] == word[j] {
        assert(Class::Word.has(word[j]));
        lemma_agreement_in_run(s, p, word, j + 1);
    }
}

} // verus!
