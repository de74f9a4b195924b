//! White space between the tokens of a method member: putting more of it
//! behind a token does not change whether the member is accepted.

use vstd::prelude::*;
use vstd::string::StringSliceAdditionalSpecFns;
use crate::grammar::lexical::{
    agreement, byte, keyword, lemma_run_end_bounds, lemma_trivia_end_bounds, literal, one, run,
    run_end, trivia, trivia_end, Class, COLON, DOT, HASH, LINE_FEED, QUESTION,
};
use crate::grammar::members::{
    member_method, method_name, method_type, params, receiver_self, receiver_self_or_instance,
    spaced_receiver,
};
use crate::grammar::names::lower_ident;
use crate::grammar::step::{either, join, opt, Step};
use crate::locality::agreeing::{
    agree, at, lemma_agree_less, lemma_agreement_at_least, lemma_agreement_full,
    lemma_agreement_stop, lemma_byte_local, lemma_keyword_local,
    lemma_literal_local, lemma_one_local, lemma_run_end_local, lemma_trivia_local,
};
use crate::shifting::moved::{
    lemma_byte_moved, lemma_literal_moved, lemma_same_from_later, lemma_trivia_end_moved,
    lemma_trivia_moved, moved, moved_nodes, same_from,
};
use crate::reach::names::lemma_agreement_in_run;
use crate::tree::NodeView;

verus! {

/// Whether every byte of `w` is white space.
pub open spec fn blank(w: Seq<u8>) -> bool {
    forall|i: int| 0 <= i < w.len() ==> Class::Space.has(#[trigger] w[i])
}

/// Whether reading white space and comments from `a` on in `s`, inside a
/// comment at `a` if `in_comment` says so, comes to `g` outside a comment.
pub open spec fn reaches(s: Seq<u8>, a: int, g: int, in_comment: bool) -> bool
    decreases g - a,
{
    if a == g {
        !in_comment
    } else if 0 <= a < g && a < s.len() {
        if in_comment {
            reaches(s, a + 1, g, s[a] != LINE_FEED)
        } else if Class::Space.has(s[a]) {
            reaches(s, a + 1, g, false)
        } else if s[a] == HASH {
            reaches(s, a + 1, g, true)
        } else {
            false
        }
    } else {
        false
    }
}

/// Whether `g` lies in the gap that starts at `g0` in `s`: at `g0` or
/// behind it, with nothing but white space and whole comments between the
/// two.
pub open spec fn in_gap(s: Seq<u8>, g0: int, g: int) -> bool {
    &&& 0 <= g0 <= g <= s.len()
    &&& reaches(s, g0, g, false)
}

/// The input `s` with `w` put in at the offset `g`.
pub open spec fn inserted(s: Seq<u8>, g: int, w: Seq<u8>) -> Seq<u8> {
    s.subrange(0, g) + w + s.subrange(g, s.len() as int)
}

/// Whether the attempt `b`, made where `w` has been put in, comes out as
/// the attempt `a` made on the input as it was: both match or both fail,
/// and a match ends further on by `k`.
pub open spec fn stretched(a: Step, b: Step, k: int) -> bool {
    b.ok == a.ok && (a.ok ==> b.end == a.end + k)
}

/// What putting `w` in at `g` leaves as it was: everything before `g`, and
/// everything from `g` on, which only stands further on.
pub proof fn lemma_inserted(s: Seq<u8>, g: int, w: Seq<u8>)
    requires
        0 <= g <= s.len(),
    ensures
        inserted(s, g, w).len() == s.len() + w.len(),
        agree(s, inserted(s, g, w), g),
        same_from(s, g, inserted(s, g, w), w.len() as int),
        forall|i: int| g <= i < g + w.len() ==> inserted(s, g, w)[i] == w[i - g],
        forall|i: int| 0 <= i < g ==> inserted(s, g, w)[i] == s[i],
        w.len() == 0 ==> inserted(s, g, w) == s,
{
    let t = inserted(s, g, w);
    assert forall|i: int| 0 <= i < g implies #[trigger] at(s, i) == at(t, i) by {}
    assert forall|j: int| g <= j implies #[trigger] at(s, j) == at(t, j + w.len()) by {}
    if w.len() == 0 {
        assert(t =~= s);
    }
}

/// White space and comments read up to a place outside a comment end
/// where they end when read from that place on.
pub proof fn lemma_trivia_from_gap(s: Seq<u8>, a: int, g: int, in_comment: bool)
    requires
        0 <= a <= g <= s.len(),
        reaches(s, a, g, in_comment),
    ensures
        trivia_end(s, a, in_comment) == trivia_end(s, g, false),
    decreases g - a,
{
    if a < g {
        if in_comment {
            lemma_trivia_from_gap(s, a + 1, g, s[a] != LINE_FEED);
        } else if Class::Space.has(s[a]) {
            lemma_trivia_from_gap(s, a + 1, g, false);
        } else {
            lemma_trivia_from_gap(s, a + 1, g, true);
        }
    }
}

/// Reading up to a place outside a comment goes the same way on an input
/// that is the same before that place.
pub proof fn lemma_reaches_same(s: Seq<u8>, t: Seq<u8>, a: int, g: int, in_comment: bool)
    requires
        0 <= a <= g <= s.len(),
        g <= t.len(),
        reaches(s, a, g, in_comment),
        forall|i: int| 0 <= i < g ==> t[i] == s[i],
    ensures
        reaches(t, a, g, in_comment),
    decreases g - a,
{
    if a < g {
        assert(t[a] == s[a]);
        if in_comment {
            lemma_reaches_same(s, t, a + 1, g, s[a] != LINE_FEED);
        } else if Class::Space.has(s[a]) {
            lemma_reaches_same(s, t, a + 1, g, false);
        } else {
            lemma_reaches_same(s, t, a + 1, g, true);
        }
    }
}

/// Reading goes over a stretch of nothing but white space.
pub proof fn lemma_reaches_over_blank(t: Seq<u8>, a: int, b: int)
    requires
        0 <= a <= b <= t.len(),
        forall|i: int| a <= i < b ==> Class::Space.has(#[trigger] t[i]),
    ensures
        reaches(t, a, b, false),
    decreases b - a,
{
    if a < b {
        assert(Class::Space.has(t[a]));
        lemma_reaches_over_blank(t, a + 1, b);
    }
}

/// White space that starts at `g0`, with more white space put into it at
/// `g`, ends further on by what was put in.
pub proof fn lemma_trivia_inserted(s: Seq<u8>, g0: int, g: int, w: Seq<u8>)
    requires
        in_gap(s, g0, g),
        blank(w),
    ensures
        trivia(inserted(s, g, w), g0) == moved(trivia(s, g0), w.len() as int),
        trivia(s, g0).end >= g,
{
    let t = inserted(s, g, w);
    let k = w.len() as int;
    lemma_inserted(s, g, w);
    lemma_reaches_same(s, t, g0, g, false);
    lemma_trivia_from_gap(t, g0, g, false);
    assert forall|i: int| g <= i < g + k implies Class::Space.has(#[trigger] t[i]) by {
        assert(t[i] == w[i - g]);
    }
    lemma_reaches_over_blank(t, g, g + k);
    lemma_trivia_from_gap(t, g, g + k, false);
    lemma_trivia_from_gap(s, g0, g, false);
    lemma_trivia_end_moved(s, g, t, k, false);
    lemma_trivia_end_bounds(s, g, false);
    assert(moved_nodes(Seq::<NodeView>::empty(), k) =~= Seq::<NodeView>::empty());
}

/// A keyword that matched just before the place where white space is put
/// in matches as before.
pub proof fn lemma_keyword_gap(s: Seq<u8>, p: int, word: Seq<u8>, g: int, w: Seq<u8>)
    requires
        0 <= p,
        keyword(s, p, word).ok,
        in_gap(s, keyword(s, p, word).end, g),
        blank(w),
    ensures
        keyword(inserted(s, g, w), p, word) == keyword(s, p, word),
{
    let t = inserted(s, g, w);
    lemma_inserted(s, g, w);
    let l = literal(s, p, word);
    lemma_agree_less(s, t, g, l.seen);
    lemma_literal_local(s, t, p, word);
    if w.len() > 0 {
        if l.end < g {
            assert(t[l.end] == s[l.end]);
        } else {
            assert(t[l.end] == w[0]);
        }
    }
}

/// The bytes of the word `self`: four lower-case letters.
pub proof fn lemma_self_word()
    ensures
        "self".spec_bytes() =~= seq![0x73u8, 0x65u8, 0x6cu8, 0x66u8],
{
    reveal_strlit("self");
    let s = "self";
    assert(s@.len() == 4);
    assert(vstd::string::is_ascii(s)) by {
        assert(vstd::utf8::is_ascii_chars(s@));
    }
    vstd::string::is_ascii_spec_bytes(s);
}

/// The bytes of the word `->`.
pub proof fn lemma_arrow_word()
    ensures
        "->".spec_bytes() =~= seq![0x2du8, 0x3eu8],
{
    reveal_strlit("->");
    let s = "->";
    assert(s@.len() == 2);
    assert(vstd::string::is_ascii(s)) by {
        assert(vstd::utf8::is_ascii_chars(s@));
    }
    vstd::string::is_ascii_spec_bytes(s);
}

/// A run that stopped just before the place where white space is put in,
/// or earlier, stops there as before, provided the class of the run holds
/// no white space.
pub proof fn lemma_run_gap(s: Seq<u8>, p: int, c: Class, g: int, w: Seq<u8>)
    requires
        0 <= p <= s.len(),
        in_gap(s, run_end(s, p, c), g),
        blank(w),
        forall|b: u8| Class::Space.has(b) ==> !c.has(b),
    ensures
        run_end(inserted(s, g, w), p, c) == run_end(s, p, c),
    decreases s.len() - p,
{
    let t = inserted(s, g, w);
    lemma_inserted(s, g, w);
    lemma_run_end_bounds(s, p, c);
    if p < s.len() && c.has(s[p]) {
        lemma_run_end_bounds(s, p + 1, c);
        assert(t[p] == s[p]);
        lemma_run_gap(s, p + 1, c, g, w);
    } else {
        if w.len() > 0 {
            if p < g {
                assert(t[p] == s[p]);
            } else {
                assert(t[p] == w[0]);
            }
        }
    }
}

/// A method name that matched just before the place where white space is
/// put in matches as before.
pub proof fn lemma_method_name_gap(s: Seq<u8>, p: int, g: int, w: Seq<u8>)
    requires
        0 <= p <= s.len(),
        method_name(s, p).ok,
        in_gap(s, method_name(s, p).end, g),
        blank(w),
    ensures
        method_name(inserted(s, g, w), p) == method_name(s, p),
{
    reveal(method_name);
    let t = inserted(s, g, w);
    lemma_inserted(s, g, w);
    let head = one(s, p, Class::Lower);
    assert(head.ok);
    let e = run_end(s, p + 1, Class::Word);
    lemma_run_end_bounds(s, p + 1, Class::Word);
    assert(lower_ident(s, p).end == e);
    lemma_agree_less(s, t, g, head.seen);
    lemma_one_local(s, t, p, Class::Lower);
    let suffix = one(s, e, Class::Suffix);
    if suffix.ok {
        lemma_agree_less(s, t, g, e + 1);
        lemma_run_end_local(s, t, p + 1, Class::Word);
        lemma_one_local(s, t, e, Class::Suffix);
    } else {
        lemma_run_gap(s, p + 1, Class::Word, g, w);
        if w.len() > 0 {
            if e < g {
                assert(t[e] == s[e]);
            } else {
                assert(t[e] == w[0]);
            }
        }
    }
}

/// The receiver `self.` with white space put in behind `self`.
pub proof fn lemma_receiver_self_gap(s: Seq<u8>, q: int, g: int, w: Seq<u8>)
    requires
        0 <= q,
        keyword(s, q, "self".spec_bytes()).ok,
        in_gap(s, keyword(s, q, "self".spec_bytes()).end, g),
        blank(w),
    ensures
        stretched(receiver_self(s, q), receiver_self(inserted(s, g, w), q), w.len() as int),
        receiver_self(s, q).ok ==> receiver_self(s, q).end > g,
{
    reveal(receiver_self);
    let t = inserted(s, g, w);
    let k = w.len() as int;
    let a = keyword(s, q, "self".spec_bytes());
    lemma_keyword_gap(s, q, "self".spec_bytes(), g, w);
    lemma_trivia_inserted(s, a.end, g, w);
    let sp = trivia(s, a.end);
    lemma_inserted(s, g, w);
    lemma_trivia_end_bounds(s, a.end, false);
    lemma_same_from_later(s, g, t, k, sp.end);
    lemma_byte_moved(s, sp.end, t, k, DOT);
}

/// The receiver `self?.` with white space put in behind `self`.
pub proof fn lemma_receiver_both_gap(s: Seq<u8>, q: int, g: int, w: Seq<u8>)
    requires
        0 <= q,
        keyword(s, q, "self".spec_bytes()).ok,
        in_gap(s, keyword(s, q, "self".spec_bytes()).end, g),
        blank(w),
    ensures
        stretched(
            receiver_self_or_instance(s, q),
            receiver_self_or_instance(inserted(s, g, w), q),
            w.len() as int,
        ),
        receiver_self_or_instance(s, q).ok ==> receiver_self_or_instance(s, q).end > g,
{
    reveal(receiver_self_or_instance);
    let t = inserted(s, g, w);
    let k = w.len() as int;
    let a = keyword(s, q, "self".spec_bytes());
    lemma_keyword_gap(s, q, "self".spec_bytes(), g, w);
    lemma_trivia_inserted(s, a.end, g, w);
    let sp = trivia(s, a.end);
    lemma_inserted(s, g, w);
    lemma_trivia_end_bounds(s, a.end, false);
    lemma_same_from_later(s, g, t, k, sp.end);
    lemma_byte_moved(s, sp.end, t, k, QUESTION);
    let mark = byte(s, sp.end, QUESTION);
    if mark.ok {
        lemma_same_from_later(s, g, t, k, mark.end);
        lemma_trivia_moved(s, mark.end, t, k);
        let sp2 = trivia(s, mark.end);
        lemma_trivia_end_bounds(s, mark.end, false);
        lemma_same_from_later(s, g, t, k, sp2.end);
        lemma_byte_moved(s, sp2.end, t, k, DOT);
    }
}

/// The front of the receiver `self?.`, up to the question mark.
pub open spec fn receiver_both_front(s: Seq<u8>, q: int) -> Step {
    let a = keyword(s, q, "self".spec_bytes());
    let b = join(a, trivia(s, a.end));
    join(b, byte(s, b.end, QUESTION))
}

/// The receiver `self?.` with white space put in behind the question
/// mark.
pub proof fn lemma_receiver_both_gap_behind_mark(s: Seq<u8>, q: int, g: int, w: Seq<u8>)
    requires
        0 <= q <= s.len(),
        receiver_both_front(s, q).ok,
        in_gap(s, receiver_both_front(s, q).end, g),
        blank(w),
    ensures
        stretched(
            receiver_self_or_instance(s, q),
            receiver_self_or_instance(inserted(s, g, w), q),
            w.len() as int,
        ),
        receiver_self_or_instance(s, q).ok ==> receiver_self_or_instance(s, q).end > g,
        receiver_self(inserted(s, g, w), q) == receiver_self(s, q),
        !receiver_self(s, q).ok,
{
    reveal(receiver_self_or_instance);
    reveal(receiver_self);
    let t = inserted(s, g, w);
    let k = w.len() as int;
    lemma_inserted(s, g, w);
    let a = keyword(s, q, "self".spec_bytes());
    crate::nesting::forest::lemma_keyword_nested(s, q, "self".spec_bytes());
    let sp = trivia(s, a.end);
    lemma_trivia_end_bounds(s, a.end, false);
    let mark = byte(s, sp.end, QUESTION);
    lemma_agree_less(s, t, g, a.seen);
    lemma_keyword_local(s, t, q, "self".spec_bytes());
    lemma_agree_less(s, t, g, sp.seen);
    lemma_trivia_local(s, t, a.end);
    lemma_agree_less(s, t, g, mark.seen);
    lemma_byte_local(s, t, sp.end, QUESTION);
    lemma_byte_local(s, t, sp.end, DOT);
    lemma_trivia_inserted(s, mark.end, g, w);
    let sp2 = trivia(s, mark.end);
    lemma_trivia_end_bounds(s, mark.end, false);
    lemma_same_from_later(s, g, t, k, sp2.end);
    lemma_byte_moved(s, sp2.end, t, k, DOT);
}

/// A receiver and the white space behind it, with white space put in
/// behind `self`.
pub proof fn lemma_spaced_receiver_gap(s: Seq<u8>, q: int, g: int, w: Seq<u8>)
    requires
        0 <= q <= s.len(),
        keyword(s, q, "self".spec_bytes()).ok,
        in_gap(s, keyword(s, q, "self".spec_bytes()).end, g),
        blank(w),
    ensures
        stretched(spaced_receiver(s, q), spaced_receiver(inserted(s, g, w), q), w.len() as int),
        spaced_receiver(s, q).ok ==> spaced_receiver(s, q).end > g,
{
    reveal(spaced_receiver);
    let t = inserted(s, g, w);
    let k = w.len() as int;
    lemma_inserted(s, g, w);
    lemma_receiver_both_gap(s, q, g, w);
    lemma_receiver_self_gap(s, q, g, w);
    let x = either(receiver_self_or_instance(s, q), receiver_self(s, q));
    if x.ok {
        crate::nesting::members::lemma_receiver_self_or_instance_nested(s, q);
        crate::nesting::members::lemma_receiver_self_nested(s, q);
        lemma_same_from_later(s, g, t, k, x.end);
        lemma_trivia_moved(s, x.end, t, k);
        lemma_trivia_end_bounds(s, x.end, false);
    }
}

/// A receiver and the white space behind it, with white space put in
/// behind the question mark.
pub proof fn lemma_spaced_receiver_gap_behind_mark(s: Seq<u8>, q: int, g: int, w: Seq<u8>)
    requires
        0 <= q <= s.len(),
        receiver_both_front(s, q).ok,
        in_gap(s, receiver_both_front(s, q).end, g),
        blank(w),
    ensures
        stretched(spaced_receiver(s, q), spaced_receiver(inserted(s, g, w), q), w.len() as int),
        spaced_receiver(s, q).ok ==> spaced_receiver(s, q).end > g,
{
    reveal(spaced_receiver);
    let t = inserted(s, g, w);
    let k = w.len() as int;
    lemma_inserted(s, g, w);
    lemma_receiver_both_gap_behind_mark(s, q, g, w);
    let x = either(receiver_self_or_instance(s, q), receiver_self(s, q));
    if x.ok {
        crate::nesting::members::lemma_receiver_self_or_instance_nested(s, q);
        lemma_same_from_later(s, g, t, k, x.end);
        lemma_trivia_moved(s, x.end, t, k);
        lemma_trivia_end_bounds(s, x.end, false);
    }
}

/// The receiver of a method member, without the white space behind it.
pub open spec fn receiver(s: Seq<u8>, q: int) -> Step {
    either(receiver_self_or_instance(s, q), receiver_self(s, q))
}

/// A receiver and the white space behind it, with white space put in
/// behind the dot.
pub proof fn lemma_spaced_receiver_gap_behind_dot(s: Seq<u8>, q: int, g: int, w: Seq<u8>)
    requires
        0 <= q <= s.len(),
        receiver(s, q).ok,
        in_gap(s, receiver(s, q).end, g),
        blank(w),
    ensures
        stretched(spaced_receiver(s, q), spaced_receiver(inserted(s, g, w), q), w.len() as int),
        spaced_receiver(s, q).ok,
        spaced_receiver(s, q).end >= g,
{
    reveal(spaced_receiver);
    reveal(receiver_self_or_instance);
    reveal(receiver_self);
    let t = inserted(s, g, w);
    let k = w.len() as int;
    lemma_inserted(s, g, w);
    let x = receiver(s, q);
    crate::nesting::members::lemma_receiver_self_or_instance_nested(s, q);
    crate::nesting::members::lemma_receiver_self_nested(s, q);
    let a = keyword(s, q, "self".spec_bytes());
    crate::nesting::forest::lemma_keyword_nested(s, q, "self".spec_bytes());
    let sp = trivia(s, a.end);
    lemma_trivia_end_bounds(s, a.end, false);
    let both = receiver_self_or_instance(s, q);
    assert(a.ok);
    assert(a.seen == a.end + 1);
    let mark = byte(s, sp.end, QUESTION);
    if mark.ok {
        lemma_trivia_end_bounds(s, mark.end, false);
        let sp2 = trivia(s, mark.end);
        let dot = byte(s, sp2.end, DOT);
        assert(both.ok == dot.ok);
        if !dot.ok {
            assert(!byte(s, sp.end, DOT).ok);
            assert(!receiver_self(s, q).ok);
        }
        assert(both.seen <= both.end);
    } else {
        assert(receiver_self(s, q).ok);
        assert(both.seen <= sp.end + 1);
        assert(x.end == sp.end + 1);
    }
    assert(both.seen <= g);
    lemma_agree_less(s, t, g, both.seen);
    crate::locality::members::lemma_receiver_self_or_instance_local(s, t, q);
    if !both.ok {
        lemma_agree_less(s, t, g, receiver_self(s, q).seen);
        crate::locality::members::lemma_receiver_self_local(s, t, q);
    }
    lemma_trivia_inserted(s, x.end, g, w);
}

/// The front of a method type, up to the arrow.
pub open spec fn method_type_front(s: Seq<u8>, q: int) -> Step {
    let a = params(s, q);
    let b = join(a, trivia(s, a.end));
    join(b, literal(s, b.end, "->".spec_bytes()))
}

/// A method type with white space put in behind the parameter list,
/// where the parameter list looked at nothing from there on.
pub proof fn lemma_method_type_gap_behind_params(s: Seq<u8>, q: int, g: int, w: Seq<u8>)
    requires
        0 <= q <= s.len(),
        params(s, q).ok,
        params(s, q).seen <= g,
        in_gap(s, params(s, q).end, g),
        blank(w),
    ensures
        stretched(method_type(s, q), method_type(inserted(s, g, w), q), w.len() as int),
        method_type(s, q).ok ==> method_type(s, q).end >= g,
{
    reveal(method_type);
    let t = inserted(s, g, w);
    let k = w.len() as int;
    lemma_inserted(s, g, w);
    let a = params(s, q);
    lemma_agree_less(s, t, g, a.seen);
    crate::locality::members::lemma_params_local(s, t, q);
    lemma_trivia_inserted(s, a.end, g, w);
    let sp = trivia(s, a.end);
    lemma_trivia_end_bounds(s, a.end, false);
    lemma_same_from_later(s, g, t, k, sp.end);
    lemma_literal_moved(s, sp.end, t, k, "->".spec_bytes());
    let arrow = literal(s, sp.end, "->".spec_bytes());
    if arrow.ok {
        crate::nesting::forest::lemma_literal_nested(s, sp.end, "->".spec_bytes());
        lemma_same_from_later(s, g, t, k, arrow.end);
        lemma_trivia_moved(s, arrow.end, t, k);
        let sp2 = trivia(s, arrow.end);
        lemma_trivia_end_bounds(s, arrow.end, false);
        lemma_same_from_later(s, g, t, k, sp2.end);
        crate::shifting::types::lemma_type_expr_moved(s, sp2.end, t, k);
        crate::nesting::types::lemma_type_expr_nested(s, sp2.end);
    }
}

/// A method type with white space put in behind the arrow, where the
/// parameter list looked at nothing from there on.
pub proof fn lemma_method_type_gap_behind_arrow(s: Seq<u8>, q: int, g: int, w: Seq<u8>)
    requires
        0 <= q <= s.len(),
        method_type_front(s, q).ok,
        params(s, q).seen <= g,
        in_gap(s, method_type_front(s, q).end, g),
        blank(w),
    ensures
        stretched(method_type(s, q), method_type(inserted(s, g, w), q), w.len() as int),
        method_type(s, q).ok ==> method_type(s, q).end >= g,
{
    reveal(method_type);
    lemma_arrow_word();
    let t = inserted(s, g, w);
    let k = w.len() as int;
    lemma_inserted(s, g, w);
    let a = params(s, q);
    crate::nesting::members::lemma_params_nested(s, q);
    lemma_agree_less(s, t, g, a.seen);
    crate::locality::members::lemma_params_local(s, t, q);
    let sp = trivia(s, a.end);
    lemma_trivia_end_bounds(s, a.end, false);
    let arrow = literal(s, sp.end, "->".spec_bytes());
    crate::grammar::lexical::lemma_agreement_bounds(s, sp.end, "->".spec_bytes(), 0);
    assert(arrow.end == sp.end + 2);
    lemma_agree_less(s, t, g, sp.seen);
    lemma_trivia_local(s, t, a.end);
    lemma_agree_less(s, t, g, arrow.seen);
    lemma_literal_local(s, t, sp.end, "->".spec_bytes());
    lemma_trivia_inserted(s, arrow.end, g, w);
    let sp2 = trivia(s, arrow.end);
    lemma_trivia_end_bounds(s, arrow.end, false);
    lemma_same_from_later(s, g, t, k, sp2.end);
    crate::shifting::types::lemma_type_expr_moved(s, sp2.end, t, k);
    crate::nesting::types::lemma_type_expr_nested(s, sp2.end);
}

/// A method member from its colon on: `:` and the method type.
pub open spec fn colon_tail(s: Seq<u8>, r: int) -> Step {
    let a = byte(s, r, COLON);
    let b = join(a, trivia(s, a.end));
    join(b, method_type(s, b.end))
}

/// A method member from its name on: the name, `:` and the method type.
pub open spec fn method_tail(s: Seq<u8>, r: int) -> Step {
    let a = method_name(s, r);
    let b = join(a, trivia(s, a.end));
    join(b, colon_tail(s, b.end))
}

/// A method member up to where its name has to stand: `def` and the
/// optional receiver.
pub open spec fn method_head(s: Seq<u8>, p: int) -> Step {
    let a = keyword(s, p, "def".spec_bytes());
    let b = join(a, trivia(s, a.end));
    join(b, opt(b.end, spaced_receiver(s, b.end)))
}

/// Whether two attempts come out alike: both match and end at the same
/// place, or both fail.
pub open spec fn alike(a: Step, b: Step) -> bool {
    a.ok == b.ok && (a.ok ==> a.end == b.end)
}

/// A method member is its head and, from the name on, its tail.
pub proof fn lemma_member_method_split(s: Seq<u8>, p: int)
    ensures
        alike(member_method(s, p), join(method_head(s, p), method_tail(s, method_head(s, p).end))),
{
    reveal(member_method);
}

/// `colon_tail` does the same where the same text stands at another offset.
pub proof fn lemma_colon_tail_moved(s: Seq<u8>, r: int, t: Seq<u8>, k: int)
    requires
        same_from(s, r, t, k),
    ensures
        stretched(colon_tail(s, r), colon_tail(t, r + k), k),
        colon_tail(s, r).ok ==> colon_tail(s, r).end >= r,
{
    lemma_byte_moved(s, r, t, k, COLON);
    let a = byte(s, r, COLON);
    if a.ok {
        lemma_same_from_later(s, r, t, k, a.end);
        lemma_trivia_moved(s, a.end, t, k);
        let sp = trivia(s, a.end);
        lemma_trivia_end_bounds(s, a.end, false);
        lemma_same_from_later(s, r, t, k, sp.end);
        crate::shifting::members::lemma_method_type_moved(s, sp.end, t, k);
        crate::nesting::members::lemma_method_type_nested(s, sp.end);
    }
}

/// `method_tail` does the same where the same text stands at another offset.
pub proof fn lemma_method_tail_moved(s: Seq<u8>, r: int, t: Seq<u8>, k: int)
    requires
        same_from(s, r, t, k),
    ensures
        stretched(method_tail(s, r), method_tail(t, r + k), k),
        method_tail(s, r).ok ==> method_tail(s, r).end >= r,
{
    crate::shifting::members::lemma_method_name_moved(s, r, t, k);
    crate::nesting::members::lemma_method_name_nested(s, r);
    let a = method_name(s, r);
    if a.ok {
        lemma_same_from_later(s, r, t, k, a.end);
        lemma_trivia_moved(s, a.end, t, k);
        let sp = trivia(s, a.end);
        lemma_trivia_end_bounds(s, a.end, false);
        lemma_same_from_later(s, r, t, k, sp.end);
        lemma_colon_tail_moved(s, sp.end, t, k);
    }
}

/// A method member with white space put in behind `def`.
pub proof fn lemma_member_method_gap_behind_def(s: Seq<u8>, p: int, g: int, w: Seq<u8>)
    requires
        0 <= p <= s.len(),
        keyword(s, p, "def".spec_bytes()).ok,
        in_gap(s, keyword(s, p, "def".spec_bytes()).end, g),
        blank(w),
    ensures
        stretched(member_method(s, p), member_method(inserted(s, g, w), p), w.len() as int),
{
    let t = inserted(s, g, w);
    let k = w.len() as int;
    lemma_inserted(s, g, w);
    lemma_member_method_split(s, p);
    lemma_member_method_split(t, p);
    let a = keyword(s, p, "def".spec_bytes());
    lemma_keyword_gap(s, p, "def".spec_bytes(), g, w);
    lemma_trivia_inserted(s, a.end, g, w);
    let sp = trivia(s, a.end);
    lemma_trivia_end_bounds(s, a.end, false);
    lemma_same_from_later(s, g, t, k, sp.end);
    crate::shifting::members::lemma_spaced_receiver_moved(s, sp.end, t, k);
    crate::nesting::members::lemma_spaced_receiver_nested(s, sp.end);
    let head = method_head(s, p);
    lemma_same_from_later(s, g, t, k, head.end);
    lemma_method_tail_moved(s, head.end, t, k);
}

/// A method member with white space put in somewhere in its receiver,
/// where the receiver comes out as before, only further on.
pub proof fn lemma_member_method_gap_in_receiver(s: Seq<u8>, p: int, g: int, w: Seq<u8>)
    requires
        0 <= p <= s.len(),
        0 <= g <= s.len(),
        blank(w),
        keyword(s, p, "def".spec_bytes()).ok,
        ({
            let q = trivia(s, keyword(s, p, "def".spec_bytes()).end).end;
            &&& q < g
            &&& spaced_receiver(s, q).ok
            &&& spaced_receiver(s, q).end >= g
            &&& stretched(
                spaced_receiver(s, q),
                spaced_receiver(inserted(s, g, w), q),
                w.len() as int,
            )
        }),
    ensures
        stretched(member_method(s, p), member_method(inserted(s, g, w), p), w.len() as int),
{
    let t = inserted(s, g, w);
    let k = w.len() as int;
    lemma_inserted(s, g, w);
    lemma_member_method_split(s, p);
    lemma_member_method_split(t, p);
    let a = keyword(s, p, "def".spec_bytes());
    crate::nesting::forest::lemma_keyword_nested(s, p, "def".spec_bytes());
    let sp = trivia(s, a.end);
    lemma_trivia_end_bounds(s, a.end, false);
    lemma_agree_less(s, t, g, a.seen);
    lemma_keyword_local(s, t, p, "def".spec_bytes());
    lemma_agree_less(s, t, g, sp.seen);
    lemma_trivia_local(s, t, a.end);
    let head = method_head(s, p);
    crate::nesting::members::lemma_spaced_receiver_nested(s, sp.end);
    lemma_same_from_later(s, g, t, k, head.end);
    lemma_method_tail_moved(s, head.end, t, k);
}

/// How the keyword `self` and a method name at the same place go
/// together: where the keyword matches, the name is `self`, with or
/// without a suffix; where it fails, it has looked no further than the
/// byte behind the name, and as far as that only where the name is the
/// start of the word `self`.
pub proof fn lemma_self_and_name(s: Seq<u8>, q: int)
    requires
        0 <= q <= s.len(),
        method_name(s, q).ok,
    ensures
        ({
            let kw = keyword(s, q, "self".spec_bytes());
            let lit = literal(s, q, "self".spec_bytes());
            let e = method_name(s, q).end;
            &&& q < e <= s.len()
            &&& method_name(s, q).seen <= e + 1
            &&& kw.ok ==> kw.end == q + 4 && (e == q + 4 || (e == q + 5 && Class::Suffix.has(
                s[q + 4],
            )))
            &&& !kw.ok ==> kw.seen <= e + 1
            &&& !kw.ok && kw.seen == e + 1 ==> !lit.ok && q + agreement(
                s,
                q,
                "self".spec_bytes(),
                0,
            ) == e
        }),
{
    reveal(method_name);
    lemma_self_word();
    let word = "self".spec_bytes();
    let e1 = run_end(s, q + 1, Class::Word);
    lemma_run_end_bounds(s, q + 1, Class::Word);
    assert(lower_ident(s, q).end == e1);
    assert(run_end(s, q, Class::Word) == e1);
    lemma_agreement_in_run(s, q, word, 0);
    lemma_agreement_at_least(s, q, word, 0);
    let lit = literal(s, q, word);
    if lit.ok {
        lemma_agreement_full(s, q, word, 0, 1);
        lemma_agreement_full(s, q, word, 0, 2);
        lemma_agreement_full(s, q, word, 0, 3);
        assert(s[q + 1] == word[1]);
        assert(s[q + 2] == word[2]);
        assert(s[q + 3] == word[3]);
        assert(run_end(s, q + 1, Class::Word) == run_end(s, q + 4, Class::Word)) by {
            reveal_with_fuel(run_end, 4);
        }
        if q + 4 < s.len() && Class::Word.has(s[q + 4]) {
            lemma_run_end_bounds(s, q + 5, Class::Word);
        }
    }
}

/// A receiver that matched has looked at nothing behind its dot.
pub proof fn lemma_receiver_seen(s: Seq<u8>, q: int)
    requires
        0 <= q <= s.len(),
        receiver(s, q).ok,
    ensures
        receiver(s, q).seen <= receiver(s, q).end,
        q < receiver(s, q).end <= s.len(),
        spaced_receiver(s, q).ok,
        spaced_receiver(s, q).seen == spaced_receiver(s, q).end + 1,
        spaced_receiver(s, q).end >= receiver(s, q).end,
{
    reveal(spaced_receiver);
    reveal(receiver_self_or_instance);
    reveal(receiver_self);
    let a = keyword(s, q, "self".spec_bytes());
    crate::nesting::forest::lemma_keyword_nested(s, q, "self".spec_bytes());
    let sp = trivia(s, a.end);
    lemma_trivia_end_bounds(s, a.end, false);
    let mark = byte(s, sp.end, QUESTION);
    if mark.ok {
        lemma_trivia_end_bounds(s, mark.end, false);
    }
    lemma_trivia_end_bounds(s, receiver(s, q).end, false);
}

/// A receiver that fails in front of a method name fails as well with
/// white space put in behind that name.
pub proof fn lemma_failed_receiver_behind_name(s: Seq<u8>, q: int, g: int, w: Seq<u8>)
    requires
        0 <= q <= s.len(),
        !spaced_receiver(s, q).ok,
        method_name(s, q).ok,
        in_gap(s, method_name(s, q).end, g),
        blank(w),
    ensures
        !spaced_receiver(inserted(s, g, w), q).ok,
{
    let t = inserted(s, g, w);
    let k = w.len() as int;
    lemma_inserted(s, g, w);
    lemma_self_and_name(s, q);
    lemma_self_word();
    let word = "self".spec_bytes();
    let kw = keyword(s, q, word);
    let e = method_name(s, q).end;
    if k == 0 {
    } else if kw.ok {
        if e == q + 4 {
            lemma_spaced_receiver_gap(s, q, g, w);
        } else {
            assert(trivia_end(s, q + 4, false) == q + 4);
            if s[q + 4] == QUESTION {
                lemma_spaced_receiver_gap_behind_mark(s, q, g, w);
            } else {
                assert(spaced_receiver(s, q).seen <= g) by {
                    reveal(spaced_receiver);
                    reveal(receiver_self_or_instance);
                    reveal(receiver_self);
                }
                lemma_agree_less(s, t, g, spaced_receiver(s, q).seen);
                crate::locality::members::lemma_spaced_receiver_local(s, t, q);
            }
        }
    } else {
        assert(spaced_receiver(s, q).seen == kw.seen) by {
            reveal(spaced_receiver);
            reveal(receiver_self_or_instance);
            reveal(receiver_self);
        }
        if kw.seen <= g {
            lemma_agree_less(s, t, g, spaced_receiver(s, q).seen);
            crate::locality::members::lemma_spaced_receiver_local(s, t, q);
        } else {
            let m = agreement(s, q, word, 0);
            crate::grammar::lexical::lemma_agreement_bounds(s, q, word, 0);
            assert(q + m == g);
            assert(t[g] == w[0]);
            assert(Class::Space.has(w[0]));
            lemma_agreement_stop(s, t, q, word, 0);
            assert(!keyword(t, q, word).ok);
            assert(!spaced_receiver(t, q).ok) by {
                reveal(spaced_receiver);
                reveal(receiver_self_or_instance);
                reveal(receiver_self);
            }
        }
    }
}

/// A receiver that fails in front of a method name and its colon fails as
/// well with white space put in behind that colon.
pub proof fn lemma_failed_receiver_behind_colon(s: Seq<u8>, q: int, g: int, w: Seq<u8>)
    requires
        0 <= q <= s.len(),
        !spaced_receiver(s, q).ok,
        method_name(s, q).ok,
        byte(s, trivia(s, method_name(s, q).end).end, COLON).ok,
        trivia(s, method_name(s, q).end).end < g <= s.len(),
        blank(w),
    ensures
        spaced_receiver(inserted(s, g, w), q) == spaced_receiver(s, q),
{
    let t = inserted(s, g, w);
    lemma_inserted(s, g, w);
    lemma_self_and_name(s, q);
    lemma_self_word();
    let e = method_name(s, q).end;
    lemma_trivia_end_bounds(s, e, false);
    let kw = keyword(s, q, "self".spec_bytes());
    if kw.ok && e == q + 5 {
        assert(trivia_end(s, q + 4, false) == q + 4);
    }
    assert(spaced_receiver(s, q).seen <= g) by {
        reveal(spaced_receiver);
        reveal(receiver_self_or_instance);
        reveal(receiver_self);
    }
    lemma_agree_less(s, t, g, spaced_receiver(s, q).seen);
    crate::locality::members::lemma_spaced_receiver_local(s, t, q);
}

/// The head of a method member comes out as before with white space put
/// in right behind the name that follows the head.
pub proof fn lemma_method_head_behind_name(s: Seq<u8>, p: int, g: int, w: Seq<u8>)
    requires
        0 <= p <= s.len(),
        method_head(s, p).ok,
        method_name(s, method_head(s, p).end).ok,
        in_gap(s, method_name(s, method_head(s, p).end).end, g),
        blank(w),
    ensures
        alike(method_head(inserted(s, g, w), p), method_head(s, p)),
        p <= method_head(s, p).end <= s.len(),
{
    let t = inserted(s, g, w);
    lemma_inserted(s, g, w);
    let a = keyword(s, p, "def".spec_bytes());
    crate::nesting::forest::lemma_keyword_nested(s, p, "def".spec_bytes());
    let sp = trivia(s, a.end);
    lemma_trivia_end_bounds(s, a.end, false);
    let q = sp.end;
    crate::nesting::members::lemma_spaced_receiver_nested(s, q);
    let head = method_head(s, p);
    lemma_self_and_name(s, head.end);
    lemma_agree_less(s, t, g, a.seen);
    lemma_keyword_local(s, t, p, "def".spec_bytes());
    lemma_agree_less(s, t, g, sp.seen);
    lemma_trivia_local(s, t, a.end);
    if spaced_receiver(s, q).ok {
        assert(receiver(s, q).ok) by {
            reveal(spaced_receiver);
        }
        lemma_receiver_seen(s, q);
        lemma_agree_less(s, t, g, spaced_receiver(s, q).seen);
        crate::locality::members::lemma_spaced_receiver_local(s, t, q);
    } else {
        lemma_failed_receiver_behind_name(s, q, g, w);
    }
}

/// The front of a method member, up to and with its colon, comes out as
/// before with white space put in somewhere behind the colon.
pub proof fn lemma_method_front_behind_colon(s: Seq<u8>, p: int, g: int, w: Seq<u8>)
    requires
        0 <= p <= s.len(),
        method_head(s, p).ok,
        method_name(s, method_head(s, p).end).ok,
        byte(s, trivia(s, method_name(s, method_head(s, p).end).end).end, COLON).ok,
        trivia(s, method_name(s, method_head(s, p).end).end).end < g <= s.len(),
        blank(w),
    ensures
        alike(method_head(inserted(s, g, w), p), method_head(s, p)),
        p <= method_head(s, p).end <= s.len(),
        ({
            let r = method_head(s, p).end;
            let name = method_name(s, r);
            let sp = trivia(s, name.end);
            let t = inserted(s, g, w);
            &&& method_name(t, r) == name
            &&& trivia(t, name.end) == sp
            &&& byte(t, sp.end, COLON) == byte(s, sp.end, COLON)
            &&& r < name.end <= sp.end < s.len()
        }),
{
    let t = inserted(s, g, w);
    lemma_inserted(s, g, w);
    let a = keyword(s, p, "def".spec_bytes());
    crate::nesting::forest::lemma_keyword_nested(s, p, "def".spec_bytes());
    let sp1 = trivia(s, a.end);
    lemma_trivia_end_bounds(s, a.end, false);
    let q = sp1.end;
    crate::nesting::members::lemma_spaced_receiver_nested(s, q);
    let head = method_head(s, p);
    let r = head.end;
    lemma_self_and_name(s, r);
    let name = method_name(s, r);
    let sp = trivia(s, name.end);
    lemma_trivia_end_bounds(s, name.end, false);
    lemma_agree_less(s, t, g, a.seen);
    lemma_keyword_local(s, t, p, "def".spec_bytes());
    lemma_agree_less(s, t, g, sp1.seen);
    lemma_trivia_local(s, t, a.end);
    if spaced_receiver(s, q).ok {
        assert(receiver(s, q).ok) by {
            reveal(spaced_receiver);
        }
        lemma_receiver_seen(s, q);
        lemma_agree_less(s, t, g, spaced_receiver(s, q).seen);
        crate::locality::members::lemma_spaced_receiver_local(s, t, q);
    } else {
        lemma_failed_receiver_behind_colon(s, q, g, w);
    }
    lemma_agree_less(s, t, g, name.seen);
    crate::locality::members::lemma_method_name_local(s, t, r);
    lemma_agree_less(s, t, g, sp.seen);
    lemma_trivia_local(s, t, name.end);
    lemma_agree_less(s, t, g, sp.end + 1);
    lemma_byte_local(s, t, sp.end, COLON);
}

/// A method member with white space put in behind its name.
pub proof fn lemma_member_method_gap_behind_name(s: Seq<u8>, p: int, g: int, w: Seq<u8>)
    requires
        0 <= p <= s.len(),
        method_head(s, p).ok,
        method_name(s, method_head(s, p).end).ok,
        in_gap(s, method_name(s, method_head(s, p).end).end, g),
        blank(w),
    ensures
        stretched(member_method(s, p), member_method(inserted(s, g, w), p), w.len() as int),
{
    let t = inserted(s, g, w);
    let k = w.len() as int;
    lemma_inserted(s, g, w);
    lemma_member_method_split(s, p);
    lemma_member_method_split(t, p);
    lemma_method_head_behind_name(s, p, g, w);
    let r = method_head(s, p).end;
    lemma_method_name_gap(s, r, g, w);
    let name = method_name(s, r);
    lemma_trivia_inserted(s, name.end, g, w);
    let sp = trivia(s, name.end);
    lemma_trivia_end_bounds(s, name.end, false);
    lemma_same_from_later(s, g, t, k, sp.end);
    lemma_colon_tail_moved(s, sp.end, t, k);
}

/// A method member with white space put in behind its colon.
pub proof fn lemma_member_method_gap_behind_colon(s: Seq<u8>, p: int, g: int, w: Seq<u8>)
    requires
        0 <= p <= s.len(),
        method_head(s, p).ok,
        method_name(s, method_head(s, p).end).ok,
        byte(s, trivia(s, method_name(s, method_head(s, p).end).end).end, COLON).ok,
        in_gap(s, trivia(s, method_name(s, method_head(s, p).end).end).end + 1, g),
        blank(w),
    ensures
        stretched(member_method(s, p), member_method(inserted(s, g, w), p), w.len() as int),
{
    let t = inserted(s, g, w);
    let k = w.len() as int;
    lemma_inserted(s, g, w);
    lemma_member_method_split(s, p);
    lemma_member_method_split(t, p);
    lemma_method_front_behind_colon(s, p, g, w);
    let r = method_head(s, p).end;
    let name = method_name(s, r);
    let sp = trivia(s, name.end);
    let colon = byte(s, sp.end, COLON);
    lemma_trivia_inserted(s, colon.end, g, w);
    let sp2 = trivia(s, colon.end);
    lemma_trivia_end_bounds(s, colon.end, false);
    lemma_same_from_later(s, g, t, k, sp2.end);
    crate::shifting::members::lemma_method_type_moved(s, sp2.end, t, k);
}

/// Where the method type of a method member starts: behind the colon and
/// the white space that follows it.
pub open spec fn method_type_start(s: Seq<u8>, p: int) -> int {
    let name = method_name(s, method_head(s, p).end);
    let colon = byte(s, trivia(s, name.end).end, COLON);
    trivia(s, colon.end).end
}

/// A method member with white space put in somewhere in its method type,
/// where the method type comes out as before, only further on.
pub proof fn lemma_member_method_gap_in_method_type(s: Seq<u8>, p: int, g: int, w: Seq<u8>)
    requires
        0 <= p <= s.len(),
        0 <= g <= s.len(),
        blank(w),
        method_head(s, p).ok,
        method_name(s, method_head(s, p).end).ok,
        byte(s, trivia(s, method_name(s, method_head(s, p).end).end).end, COLON).ok,
        method_type_start(s, p) < g,
        stretched(
            method_type(s, method_type_start(s, p)),
            method_type(inserted(s, g, w), method_type_start(s, p)),
            w.len() as int,
        ),
    ensures
        stretched(member_method(s, p), member_method(inserted(s, g, w), p), w.len() as int),
{
    let t = inserted(s, g, w);
    let k = w.len() as int;
    lemma_inserted(s, g, w);
    lemma_member_method_split(s, p);
    lemma_member_method_split(t, p);
    let r = method_head(s, p).end;
    let name = method_name(s, r);
    let sp = trivia(s, name.end);
    let colon = byte(s, sp.end, COLON);
    lemma_trivia_end_bounds(s, name.end, false);
    lemma_trivia_end_bounds(s, colon.end, false);
    lemma_method_front_behind_colon(s, p, g, w);
    let sp2 = trivia(s, colon.end);
    lemma_agree_less(s, t, g, sp2.seen);
    lemma_trivia_local(s, t, colon.end);
}

/// Whether `g` is a place between two tokens of the method member that
/// starts at `p` in `s`: behind one of `def`, the `self` of the receiver,
/// its question mark, its dot, the method name, the colon, the parameter
/// list and the arrow, with nothing but white space and whole comments
/// between that token and `g`.
pub open spec fn method_gap(s: Seq<u8>, p: int, g: int) -> bool {
    let def = keyword(s, p, "def".spec_bytes());
    let q = trivia(s, def.end).end;
    let head = method_head(s, p);
    let name = method_name(s, head.end);
    let colon = byte(s, trivia(s, name.end).end, COLON);
    let start = method_type_start(s, p);
    let list = params(s, start);
    ||| def.ok && in_gap(s, def.end, g)
    ||| def.ok && spaced_receiver(s, q).ok && in_gap(
        s,
        keyword(s, q, "self".spec_bytes()).end,
        g,
    )
    ||| def.ok && spaced_receiver(s, q).ok && receiver_both_front(s, q).ok && in_gap(
        s,
        receiver_both_front(s, q).end,
        g,
    )
    ||| def.ok && receiver(s, q).ok && in_gap(s, receiver(s, q).end, g)
    ||| head.ok && name.ok && in_gap(s, name.end, g)
    ||| head.ok && name.ok && colon.ok && in_gap(s, colon.end, g)
    ||| head.ok && name.ok && colon.ok && list.ok && in_gap(s, list.end, g)
    ||| head.ok && name.ok && colon.ok && method_type_front(s, start).ok && in_gap(
        s,
        method_type_front(s, start).end,
        g,
    )
}

/// More white space between two tokens of a method member changes
/// nothing but the length of the match: the member with white space put in
/// at such a place matches exactly when the member as it was does, and
/// then ends further on by what was put in.
pub proof fn lemma_method_spacing(s: Seq<u8>, p: int, g: int, w: Seq<u8>)
    requires
        0 <= p <= s.len(),
        method_gap(s, p, g),
        blank(w),
    ensures
        stretched(member_method(s, p), member_method(inserted(s, g, w), p), w.len() as int),
{
    lemma_self_word();
    let def = keyword(s, p, "def".spec_bytes());
    let q = trivia(s, def.end).end;
    let head = method_head(s, p);
    let name = method_name(s, head.end);
    let colon = byte(s, trivia(s, name.end).end, COLON);
    let start = method_type_start(s, p);
    let list = params(s, start);
    let kw = keyword(s, q, "self".spec_bytes());
    if def.ok {
        crate::nesting::forest::lemma_keyword_nested(s, p, "def".spec_bytes());
        lemma_trivia_end_bounds(s, def.end, false);
        crate::grammar::lexical::lemma_agreement_bounds(s, q, "self".spec_bytes(), 0);
        crate::nesting::forest::lemma_keyword_nested(s, q, "self".spec_bytes());
    }
    if def.ok && in_gap(s, def.end, g) {
        lemma_member_method_gap_behind_def(s, p, g, w);
    } else if def.ok && spaced_receiver(s, q).ok && in_gap(s, kw.end, g) {
        assert(kw.ok) by {
            reveal(spaced_receiver);
            reveal(receiver_self_or_instance);
            reveal(receiver_self);
        }
        lemma_spaced_receiver_gap(s, q, g, w);
        lemma_member_method_gap_in_receiver(s, p, g, w);
    } else if def.ok && spaced_receiver(s, q).ok && receiver_both_front(s, q).ok
        && in_gap(s, receiver_both_front(s, q).end, g) {
        lemma_trivia_end_bounds(s, kw.end, false);
        lemma_spaced_receiver_gap_behind_mark(s, q, g, w);
        lemma_member_method_gap_in_receiver(s, p, g, w);
    } else if def.ok && receiver(s, q).ok && in_gap(s, receiver(s, q).end, g) {
        lemma_receiver_seen(s, q);
        lemma_spaced_receiver_gap_behind_dot(s, q, g, w);
        lemma_member_method_gap_in_receiver(s, p, g, w);
    } else if head.ok && name.ok && in_gap(s, name.end, g) {
        lemma_member_method_gap_behind_name(s, p, g, w);
    } else if head.ok && name.ok && colon.ok && in_gap(s, colon.end, g) {
        lemma_member_method_gap_behind_colon(s, p, g, w);
    } else {
        lemma_trivia_end_bounds(s, name.end, false);
        crate::nesting::members::lemma_spaced_receiver_nested(s, q);
        lemma_self_and_name(s, head.end);
        lemma_trivia_end_bounds(s, colon.end, false);
        crate::nesting::members::lemma_params_nested(s, start);
        assert(list.ok ==> list.end > start) by {
            reveal(params);
            if byte(s, start, crate::grammar::lexical::LEFT_PAREN).ok {
                lemma_trivia_end_bounds(s, start + 1, false);
                crate::nesting::members::lemma_spaced_type_list_nested(
                    s,
                    trivia(s, start + 1).end,
                );
            }
        }
        if list.ok {
            crate::reach::members::lemma_params_reach(s, start);
        }
        if list.ok && in_gap(s, list.end, g) {
            lemma_method_type_gap_behind_params(s, start, g, w);
        } else {
            lemma_trivia_end_bounds(s, list.end, false);
            crate::nesting::forest::lemma_literal_nested(
                s,
                trivia(s, list.end).end,
                "->".spec_bytes(),
            );
            lemma_method_type_gap_behind_arrow(s, start, g, w);
        }
        lemma_member_method_gap_in_method_type(s, p, g, w);
    }
}

/// More white space between two tokens of a method member does not
/// change whether the text is accepted as a method member.
pub proof fn lemma_method_spacing_accepts(s: Seq<u8>, g: int, w: Seq<u8>)
    requires
        method_gap(s, 0, g),
        blank(w),
    ensures
        crate::grammar::rules::accepts(crate::rule::Rule::MemberMethod, inserted(s, g, w))
            == crate::grammar::rules::accepts(crate::rule::Rule::MemberMethod, s),
{
    lemma_method_spacing(s, 0, g, w);
    lemma_gap_within(s, 0, g);
    lemma_inserted(s, g, w);
    crate::nesting::members::lemma_member_method_nested(s, 0);
    crate::nesting::members::lemma_member_method_nested(inserted(s, g, w), 0);
}

/// A place between two tokens lies within the input.
pub proof fn lemma_gap_within(s: Seq<u8>, p: int, g: int)
    requires
        method_gap(s, p, g),
    ensures
        0 <= g <= s.len(),
{
}

} // verus!
