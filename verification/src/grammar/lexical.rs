use vstd::prelude::*;
use crate::grammar::step::{fail, Step};

verus! {

pub const TAB: u8 = 0x09;

pub const LINE_FEED: u8 = 0x0a;

pub const CARRIAGE_RETURN: u8 = 0x0d;

pub const SPACE: u8 = 0x20;

pub const BANG: u8 = 0x21;

pub const DOUBLE_QUOTE: u8 = 0x22;

pub const HASH: u8 = 0x23;

pub const SINGLE_QUOTE: u8 = 0x27;

pub const LEFT_PAREN: u8 = 0x28;

pub const RIGHT_PAREN: u8 = 0x29;

pub const COMMA: u8 = 0x2c;

pub const DOT: u8 = 0x2e;

pub const ZERO: u8 = 0x30;

pub const COLON: u8 = 0x3a;

pub const LESS: u8 = 0x3c;

pub const EQUALS: u8 = 0x3d;

pub const QUESTION: u8 = 0x3f;

pub const AT: u8 = 0x40;

pub const LEFT_BRACKET: u8 = 0x5b;

pub const BACKSLASH: u8 = 0x5c;

pub const RIGHT_BRACKET: u8 = 0x5d;

pub const UNDERSCORE: u8 = 0x5f;

/// The sets of bytes that the grammar tells apart.
#[derive(Clone, Copy, Debug, PartialEq, Eq, Structural)]
pub enum Class {
    /// `A`-`Z`
    Upper,
    /// `a`-`z`
    Lower,
    /// `0`-`9`
    Digit,
    /// `1`-`9`
    NonZeroDigit,
    /// `0`-`7`
    Octal,
    /// `0` and `1`
    Binary,
    /// `0`-`9`, `a`-`f`, `A`-`F`
    Hex,
    /// A letter, a digit or `_`: what an identifier is made of.
    Word,
    /// Space, tab, line feed, carriage return.
    Space,
    /// A letter or `_`: what the name of an instance variable starts with.
    IdentStart,
    /// `?`, `!` and `=`: what may end a method name.
    Suffix,
    /// A letter, `_`, or a byte of a multi-byte character.
    SymbolStart,
    /// A letter, a digit, `_`, or a byte of a multi-byte character.
    SymbolChar,
    /// Every byte.
    Any,
}

impl Class {
    /// Whether the byte `b` belongs to the class.
    pub open spec fn has(self, b: u8) -> bool {
        match self {
            Class::Upper => 0x41 <= b <= 0x5a,
            Class::Lower => 0x61 <= b <= 0x7a,
            Class::Digit => 0x30 <= b <= 0x39,
            Class::NonZeroDigit => 0x31 <= b <= 0x39,
            Class::Octal => 0x30 <= b <= 0x37,
            Class::Binary => 0x30 <= b <= 0x31,
            Class::Hex => 0x30 <= b <= 0x39 || 0x41 <= b <= 0x46 || 0x61 <= b <= 0x66,
            Class::Word => 0x41 <= b <= 0x5a || 0x61 <= b <= 0x7a || 0x30 <= b <= 0x39 || b
                == UNDERSCORE,
            Class::IdentStart => 0x41 <= b <= 0x5a || 0x61 <= b <= 0x7a || b == UNDERSCORE,
            Class::Space => b == SPACE || b == TAB || b == LINE_FEED || b == CARRIAGE_RETURN,
            Class::Suffix => b == QUESTION || b == BANG || b == EQUALS,
            Class::SymbolStart => 0x41 <= b <= 0x5a || 0x61 <= b <= 0x7a || b == UNDERSCORE || b
                >= 0x80,
            Class::SymbolChar => 0x41 <= b <= 0x5a || 0x61 <= b <= 0x7a || 0x30 <= b <= 0x39
                || b == UNDERSCORE || b >= 0x80,
            Class::Any => true,
        }
    }

    pub fn contains(self, b: u8) -> (r: bool)
        ensures
            r == self.has(b),
    {
        match self {
            Class::Upper => 0x41 <= b && b <= 0x5a,
            Class::Lower => 0x61 <= b && b <= 0x7a,
            Class::Digit => 0x30 <= b && b <= 0x39,
            Class::NonZeroDigit => 0x31 <= b && b <= 0x39,
            Class::Octal => 0x30 <= b && b <= 0x37,
            Class::Binary => 0x30 <= b && b <= 0x31,
            Class::Hex => (0x30 <= b && b <= 0x39) || (0x41 <= b && b <= 0x46) || (0x61 <= b
                && b <= 0x66),
            Class::Word => (0x41 <= b && b <= 0x5a) || (0x61 <= b && b <= 0x7a) || (0x30 <= b
                && b <= 0x39) || b == UNDERSCORE,
            Class::IdentStart => (0x41 <= b && b <= 0x5a) || (0x61 <= b && b <= 0x7a) || b
                == UNDERSCORE,
            Class::Space => b == SPACE || b == TAB || b == LINE_FEED || b == CARRIAGE_RETURN,
            Class::Suffix => b == QUESTION || b == BANG || b == EQUALS,
            Class::SymbolStart => (0x41 <= b && b <= 0x5a) || (0x61 <= b && b <= 0x7a) || b
                == UNDERSCORE || b >= 0x80,
            Class::SymbolChar => (0x41 <= b && b <= 0x5a) || (0x61 <= b && b <= 0x7a) || (0x30
                <= b && b <= 0x39) || b == UNDERSCORE || b >= 0x80,
            Class::Any => true,
        }
    }
}

/// One byte of the class `c`.
pub open spec fn one(s: Seq<u8>, p: int, c: Class) -> Step {
    if 0 <= p < s.len() && c.has(s[p]) {
        Step { ok: true, end: p + 1, seen: p + 1, nodes: Seq::empty() }
    } else {
        fail(p, p + 1)
    }
}

/// The byte `b`.
pub open spec fn byte(s: Seq<u8>, p: int, b: u8) -> Step {
    if 0 <= p < s.len() && s[p] == b {
        Step { ok: true, end: p + 1, seen: p + 1, nodes: Seq::empty() }
    } else {
        fail(p, p + 1)
    }
}

/// A byte other than `a` and `b`.
pub open spec fn other(s: Seq<u8>, p: int, a: u8, b: u8) -> Step {
    if 0 <= p < s.len() && s[p] != a && s[p] != b {
        Step { ok: true, end: p + 1, seen: p + 1, nodes: Seq::empty() }
    } else {
        fail(p, p + 1)
    }
}

/// The first index at or after `p` whose byte is not of the class `c`, or
/// the length of `s` if there is none.
pub open spec fn run_end(s: Seq<u8>, p: int, c: Class) -> int
    decreases s.len() - p,
{
    if 0 <= p < s.len() && c.has(s[p]) {
        run_end(s, p + 1, c)
    } else {
        p
    }
}

/// As many bytes of the class `c` as there are at `p`; never fails.
pub open spec fn run(s: Seq<u8>, p: int, c: Class) -> Step {
    Step { ok: true, end: run_end(s, p, c), seen: run_end(s, p, c) + 1, nodes: Seq::empty() }
}

/// How many bytes of `w`, counted from its byte `j`, stand in `s` from
/// `p + j` on before the first difference: the result is the index in `w` of
/// that difference, or the length of `w`.
pub open spec fn agreement(s: Seq<u8>, p: int, w: Seq<u8>, j: int) -> int
    decreases w.len() - j,
{
    if 0 <= j < w.len() && 0 <= p + j < s.len() && s[p + j] == w[j] {
        agreement(s, p, w, j + 1)
    } else {
        j
    }
}

/// The bytes of `w`, one after the other.
pub open spec fn literal(s: Seq<u8>, p: int, w: Seq<u8>) -> Step {
    let m = agreement(s, p, w, 0);
    if m == w.len() {
        Step { ok: true, end: p + m, seen: p + m, nodes: Seq::empty() }
    } else {
        fail(p, p + m + 1)
    }
}

/// The bytes of `w`, not followed by a byte that could continue an
/// identifier.
pub open spec fn keyword(s: Seq<u8>, p: int, w: Seq<u8>) -> Step {
    let l = literal(s, p, w);
    if !l.ok {
        l
    } else if l.end < s.len() && Class::Word.has(s[l.end]) {
        fail(p, l.end + 1)
    } else {
        Step { ok: true, end: l.end, seen: l.end + 1, nodes: Seq::empty() }
    }
}

/// Where the white space and comments that start at `p` end. A comment runs
/// from `#` to the end of its line; `in_comment` says whether `p` is inside
/// one.
pub open spec fn trivia_end(s: Seq<u8>, p: int, in_comment: bool) -> int
    decreases s.len() - p,
{
    if !(0 <= p < s.len()) {
        p
    } else if in_comment {
        trivia_end(s, p + 1, s[p] != LINE_FEED)
    } else if Class::Space.has(s[p]) {
        trivia_end(s, p + 1, false)
    } else if s[p] == HASH {
        trivia_end(s, p + 1, true)
    } else {
        p
    }
}

/// White space and comments, as much as there is at `p`; never fails.
pub open spec fn trivia(s: Seq<u8>, p: int) -> Step {
    let e = trivia_end(s, p, false);
    Step { ok: true, end: e, seen: e + 1, nodes: Seq::empty() }
}

/// The end of the input.
pub open spec fn end_of_input(s: Seq<u8>, p: int) -> Step {
    if p >= s.len() {
        Step { ok: true, end: p, seen: p + 1, nodes: Seq::empty() }
    } else {
        fail(p, p + 1)
    }
}

/// A run ends at or after its start, within the input.
pub proof fn lemma_run_end_bounds(s: Seq<u8>, p: int, c: Class)
    requires
        0 <= p <= s.len(),
    ensures
        p <= run_end(s, p, c) <= s.len(),
    decreases s.len() - p,
{
    if p < s.len() && c.has(s[p]) {
        lemma_run_end_bounds(s, p + 1, c);
    }
}

/// The agreement of a word with the input stays within both.
pub proof fn lemma_agreement_bounds(s: Seq<u8>, p: int, w: Seq<u8>, j: int)
    requires
        0 <= j <= w.len(),
        0 <= p,
        p + j <= s.len(),
    ensures
        j <= agreement(s, p, w, j) <= w.len(),
        p + agreement(s, p, w, j) <= s.len(),
    decreases w.len() - j,
{
    if j < w.len() && p + j < s.len() && s[p + j] == w[j] {
        lemma_agreement_bounds(s, p, w, j + 1);
    }
}

/// White space and comments end at or after their start, within the input.
pub proof fn lemma_trivia_end_bounds(s: Seq<u8>, p: int, in_comment: bool)
    requires
        0 <= p <= s.len(),
    ensures
        p <= trivia_end(s, p, in_comment) <= s.len(),
    decreases s.len() - p,
{
    if p < s.len() {
        if in_comment {
            lemma_trivia_end_bounds(s, p + 1, s[p] != LINE_FEED);
        } else if Class::Space.has(s[p]) {
            lemma_trivia_end_bounds(s, p + 1, false);
        } else if s[p] == HASH {
            lemma_trivia_end_bounds(s, p + 1, true);
        }
    }
}

} // verus!
