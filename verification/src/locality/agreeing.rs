use vstd::prelude::*;
use crate::grammar::lexical::{
    agreement, byte, keyword, literal, one, other, run, run_end, trivia, trivia_end, Class,
};

verus! {

/// The byte of `s` at the index `i`, or nothing where `i` lies outside `s`.
pub open spec fn at(s: Seq<u8>, i: int) -> Option<u8> {
    if 0 <= i < s.len() {
        Some(s[i])
    } else {
        None
    }
}

/// Whether `s` and `t` are the same at every index below `n`: both have
/// the same byte there, or both have ended before it.
pub open spec fn agree(s: Seq<u8>, t: Seq<u8>, n: int) -> bool {
    forall|i: int| 0 <= i < n ==> #[trigger] at(s, i) == at(t, i)
}

/// Two inputs that agree below `n` agree below anything smaller.
pub proof fn lemma_agree_less(s: Seq<u8>, t: Seq<u8>, n: int, m: int)
    requires
        agree(s, t, n),
        m <= n,
    ensures
        agree(s, t, m),
{
}

/// Where two inputs agree below `n`, an offset up to `n` that lies within
/// the one lies within the other.
pub proof fn lemma_agree_length(s: Seq<u8>, t: Seq<u8>, n: int, e: int)
    requires
        agree(s, t, n),
        0 <= e <= n,
        e <= s.len(),
    ensures
        e <= t.len(),
{
    if e > 0 {
        assert(at(s, e - 1) == at(t, e - 1));
    }
}

/// `one` does the same on two inputs that agree in what it looked at.
pub proof fn lemma_one_local(s: Seq<u8>, t: Seq<u8>, p: int, c: Class)
    requires
        agree(s, t, one(s, p, c).seen),
    ensures
        one(t, p, c) == one(s, p, c),
{
    if p >= 0 {
        assert(at(s, p) == at(t, p));
    }
}

/// `byte` does the same on two inputs that agree in what it looked at.
pub proof fn lemma_byte_local(s: Seq<u8>, t: Seq<u8>, p: int, b: u8)
    requires
        agree(s, t, byte(s, p, b).seen),
    ensures
        byte(t, p, b) == byte(s, p, b),
{
    if p >= 0 {
        assert(at(s, p) == at(t, p));
    }
}

/// `other` does the same on two inputs that agree in what it looked at.
pub proof fn lemma_other_local(s: Seq<u8>, t: Seq<u8>, p: int, a: u8, b: u8)
    requires
        agree(s, t, other(s, p, a, b).seen),
    ensures
        other(t, p, a, b) == other(s, p, a, b),
{
    if p >= 0 {
        assert(at(s, p) == at(t, p));
    }
}

/// `run_end` does the same on two inputs that agree in what it looked at.
pub proof fn lemma_run_end_local(s: Seq<u8>, t: Seq<u8>, p: int, c: Class)
    requires
        agree(s, t, run_end(s, p, c) + 1),
    ensures
        run_end(t, p, c) == run_end(s, p, c),
    decreases s.len() - p,
{
    if 0 <= p < s.len() && c.has(s[p]) {
        crate::grammar::lexical::lemma_run_end_bounds(s, p + 1, c);
        assert(at(s, p) == at(t, p));
        lemma_run_end_local(s, t, p + 1, c);
    } else if p >= 0 {
        assert(at(s, p) == at(t, p));
    }
}

/// `run` does the same on two inputs that agree in what it looked at.
pub proof fn lemma_run_local(s: Seq<u8>, t: Seq<u8>, p: int, c: Class)
    requires
        agree(s, t, run(s, p, c).seen),
    ensures
        run(t, p, c) == run(s, p, c),
{
    lemma_run_end_local(s, t, p, c);
}

/// The index up to which an attempt at the word `w` looks: behind the
/// word where the word stands there, else the place of the first
/// difference.
pub open spec fn literal_seen(s: Seq<u8>, p: int, w: Seq<u8>, j: int) -> int {
    let m = agreement(s, p, w, j);
    if m == w.len() {
        p + m
    } else {
        p + m + 1
    }
}

/// `agreement` does the same on two inputs that agree in what it looked at.
pub proof fn lemma_agreement_local(s: Seq<u8>, t: Seq<u8>, p: int, w: Seq<u8>, j: int)
    requires
        0 <= j <= w.len(),
        0 <= p,
        agree(s, t, literal_seen(s, p, w, j)),
    ensures
        agreement(t, p, w, j) == agreement(s, p, w, j),
    decreases w.len() - j,
{
    if j < w.len() {
        if p + j < s.len() && s[p + j] == w[j] {
            crate::grammar::lexical::lemma_agreement_bounds(s, p, w, j + 1);
            assert(at(s, p + j) == at(t, p + j));
            lemma_agreement_local(s, t, p, w, j + 1);
        } else {
            assert(at(s, p + j) == at(t, p + j));
        }
    }
}

/// The agreement of a word with the input, counted from the byte `j` of
/// the word, is `j` at least.
pub proof fn lemma_agreement_at_least(s: Seq<u8>, p: int, w: Seq<u8>, j: int)
    ensures
        j <= agreement(s, p, w, j),
    decreases w.len() - j,
{
    if 0 <= j < w.len() && 0 <= p + j < s.len() && s[p + j] == w[j] {
        lemma_agreement_at_least(s, p, w, j + 1);
    }
}

/// `literal` does the same on two inputs that agree in what it looked at.
pub proof fn lemma_literal_local(s: Seq<u8>, t: Seq<u8>, p: int, w: Seq<u8>)
    requires
        0 <= p,
        agree(s, t, literal(s, p, w).seen),
    ensures
        literal(t, p, w) == literal(s, p, w),
{
    lemma_agreement_local(s, t, p, w, 0);
}

/// `keyword` does the same on two inputs that agree in what it looked at.
pub proof fn lemma_keyword_local(s: Seq<u8>, t: Seq<u8>, p: int, w: Seq<u8>)
    requires
        0 <= p,
        agree(s, t, keyword(s, p, w).seen),
    ensures
        keyword(t, p, w) == keyword(s, p, w),
{
    let l = literal(s, p, w);
    lemma_agreement_at_least(s, p, w, 0);
    if l.ok {
        lemma_agree_less(s, t, l.end + 1, l.seen);
        lemma_literal_local(s, t, p, w);
        assert(at(s, l.end) == at(t, l.end));
    } else {
        lemma_literal_local(s, t, p, w);
    }
}

/// `trivia_end` does the same on two inputs that agree in what it looked at.
pub proof fn lemma_trivia_end_local(s: Seq<u8>, t: Seq<u8>, p: int, in_comment: bool)
    requires
        0 <= p,
        agree(s, t, trivia_end(s, p, in_comment) + 1),
    ensures
        trivia_end(t, p, in_comment) == trivia_end(s, p, in_comment),
    decreases s.len() - p,
{
    if p < s.len() {
        crate::grammar::lexical::lemma_trivia_end_bounds(s, p, in_comment);
        assert(at(s, p) == at(t, p));
        if in_comment {
            lemma_trivia_end_local(s, t, p + 1, s[p] != crate::grammar::lexical::LINE_FEED);
        } else if Class::Space.has(s[p]) {
            lemma_trivia_end_local(s, t, p + 1, false);
        } else if s[p] == crate::grammar::lexical::HASH {
            lemma_trivia_end_local(s, t, p + 1, true);
        }
    } else {
        assert(at(s, p) == at(t, p));
    }
}

/// `trivia` does the same on two inputs that agree in what it looked at.
pub proof fn lemma_trivia_local(s: Seq<u8>, t: Seq<u8>, p: int)
    requires
        0 <= p,
        agree(s, t, trivia(s, p).seen),
    ensures
        trivia(t, p) == trivia(s, p),
{
    lemma_trivia_end_local(s, t, p, false);
}

/// Where a word stands in full, each of its bytes stands in the input.
pub proof fn lemma_agreement_full(s: Seq<u8>, p: int, word: Seq<u8>, j: int, i: int)
    requires
        0 <= j <= i < word.len(),
        agreement(s, p, word, j) == word.len(),
    ensures
        0 <= p + i < s.len(),
        s[p + i] == word[i],
    decreases word.len() - j,
{
    lemma_agreement_at_least(s, p, word, j);
    if 0 <= p + j < s.len() && s[p + j] == word[j] {
        if i > j {
            lemma_agreement_full(s, p, word, j + 1, i);
        }
    }
}

/// Where a word fails on a byte of the input, it fails on the same byte of
/// any input that is the same before that byte and holds something else
/// than the byte of the word there.
pub proof fn lemma_agreement_stop(s: Seq<u8>, t: Seq<u8>, p: int, word: Seq<u8>, j: int)
    requires
        0 <= j <= word.len(),
        0 <= p,
        agreement(s, p, word, j) < word.len(),
        agree(s, t, p + agreement(s, p, word, j)),
        at(t, p + agreement(s, p, word, j)) != Some(word[agreement(s, p, word, j)]),
    ensures
        agreement(t, p, word, j) == agreement(s, p, word, j),
    decreases word.len() - j,
{
    lemma_agreement_at_least(s, p, word, j);
    if j < word.len() && p + j < s.len() && s[p + j] == word[j] {
        lemma_agreement_at_least(s, p, word, j + 1);
        assert(at(s, p + j) == at(t, p + j));
        lemma_agreement_stop(s, t, p, word, j + 1);
    }
}

} // verus!
