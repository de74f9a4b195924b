use vstd::prelude::*;
use crate::grammar::lexical::{
    agreement, byte, keyword, literal, one, other, run, run_end, trivia, trivia_end, Class, HASH,
    LINE_FEED,
};
use crate::grammar::step::{either, fail, join, node, opt, quiet, Step};
use crate::locality::agreeing::at;
use crate::rule::Rule;
use crate::tree::NodeView;

verus! {

/// The node `n` with its span moved by `k`.
pub open spec fn moved_node(n: NodeView, k: int) -> NodeView {
    NodeView { rule: n.rule, start: n.start + k, end: n.end + k, size: n.size }
}

/// The nodes `nodes` with their spans moved by `k`.
pub open spec fn moved_nodes(nodes: Seq<NodeView>, k: int) -> Seq<NodeView> {
    Seq::new(nodes.len(), |i: int| moved_node(nodes[i], k))
}

/// The attempt `st` with every offset in it moved by `k`.
pub open spec fn moved(st: Step, k: int) -> Step {
    Step { ok: st.ok, end: st.end + k, seen: st.seen + k, nodes: moved_nodes(st.nodes, k) }
}

/// Whether `t` from the offset `p + k` on is what `s` is from the offset
/// `p` on.
pub open spec fn same_from(s: Seq<u8>, p: int, t: Seq<u8>, k: int) -> bool {
    &&& 0 <= p <= s.len()
    &&& 0 <= p + k
    &&& s.len() + k == t.len()
    &&& forall|j: int| p <= j ==> #[trigger] at(s, j) == at(t, j + k)
}

/// What is the same from one offset on is the same from a later one on.
pub proof fn lemma_same_from_later(s: Seq<u8>, p: int, t: Seq<u8>, k: int, q: int)
    requires
        same_from(s, p, t, k),
        p <= q <= s.len(),
    ensures
        same_from(s, q, t, k),
{
}

/// A failure moved is the failure at the moved place.
pub proof fn lemma_moved_fail(p: int, seen: int, k: int)
    ensures
        moved(fail(p, seen), k) == fail(p + k, seen + k),
{
    assert(moved_nodes(Seq::<NodeView>::empty(), k) =~= Seq::<NodeView>::empty());
}

/// One attempt after another, moved, is the one moved after the other moved.
pub proof fn lemma_moved_join(a: Step, b: Step, k: int)
    ensures
        moved(join(a, b), k) == join(moved(a, k), moved(b, k)),
{
    assert(moved_nodes(a.nodes + b.nodes, k) =~= moved_nodes(a.nodes, k) + moved_nodes(
        b.nodes,
        k,
    ));
}

/// One attempt or else another, moved, is the one moved or else the other moved.
pub proof fn lemma_moved_either(a: Step, b: Step, k: int)
    ensures
        moved(either(a, b), k) == either(moved(a, k), moved(b, k)),
{
}

/// An attempt that may be left out, moved, is the moved attempt that may be left out.
pub proof fn lemma_moved_opt(p: int, a: Step, k: int)
    ensures
        moved(opt(p, a), k) == opt(p + k, moved(a, k)),
{
    assert(moved_nodes(Seq::<NodeView>::empty(), k) =~= Seq::<NodeView>::empty());
}

/// An attempt that leaves no node of its own, moved, is the moved attempt.
pub proof fn lemma_moved_quiet(p: int, a: Step, k: int)
    ensures
        moved(quiet(p, a), k) == quiet(p + k, moved(a, k)),
{
    lemma_moved_fail(p, a.seen, k);
}

/// An attempt that leaves a node, moved, leaves the moved node.
pub proof fn lemma_moved_node(rule: Rule, p: int, a: Step, k: int)
    ensures
        moved(node(rule, p, a), k) == node(rule, p + k, moved(a, k)),
{
    lemma_moved_fail(p, a.seen, k);
    if a.ok {
        let n = NodeView { rule, start: p, end: a.end, size: a.nodes.len() as int + 1 };
        assert(moved_nodes(seq![n] + a.nodes, k) =~= seq![moved_node(n, k)] + moved_nodes(
            a.nodes,
            k,
        ));
    }
}

/// `one` does the same where the same text stands at another offset.
pub proof fn lemma_one_moved(s: Seq<u8>, p: int, t: Seq<u8>, k: int, c: Class)
    requires
        same_from(s, p, t, k),
    ensures
        one(t, p + k, c) == moved(one(s, p, c), k),
{
    assert(at(s, p) == at(t, p + k));
    assert(moved_nodes(Seq::<NodeView>::empty(), k) =~= Seq::<NodeView>::empty());
}

/// `byte` does the same where the same text stands at another offset.
pub proof fn lemma_byte_moved(s: Seq<u8>, p: int, t: Seq<u8>, k: int, b: u8)
    requires
        same_from(s, p, t, k),
    ensures
        byte(t, p + k, b) == moved(byte(s, p, b), k),
{
    assert(at(s, p) == at(t, p + k));
    assert(moved_nodes(Seq::<NodeView>::empty(), k) =~= Seq::<NodeView>::empty());
}

/// `other` does the same where the same text stands at another offset.
pub proof fn lemma_other_moved(s: Seq<u8>, p: int, t: Seq<u8>, k: int, a: u8, b: u8)
    requires
        same_from(s, p, t, k),
    ensures
        other(t, p + k, a, b) == moved(other(s, p, a, b), k),
{
    assert(at(s, p) == at(t, p + k));
    assert(moved_nodes(Seq::<NodeView>::empty(), k) =~= Seq::<NodeView>::empty());
}

/// `run_end` does the same where the same text stands at another offset.
pub proof fn lemma_run_end_moved(s: Seq<u8>, p: int, t: Seq<u8>, k: int, c: Class)
    requires
        same_from(s, p, t, k),
    ensures
        run_end(t, p + k, c) == run_end(s, p, c) + k,
    decreases s.len() - p,
{
    assert(at(s, p) == at(t, p + k));
    if p < s.len() && c.has(s[p]) {
        lemma_run_end_moved(s, p + 1, t, k, c);
    }
}

/// `run` does the same where the same text stands at another offset.
pub proof fn lemma_run_moved(s: Seq<u8>, p: int, t: Seq<u8>, k: int, c: Class)
    requires
        same_from(s, p, t, k),
    ensures
        run(t, p + k, c) == moved(run(s, p, c), k),
{
    lemma_run_end_moved(s, p, t, k, c);
    assert(moved_nodes(Seq::<NodeView>::empty(), k) =~= Seq::<NodeView>::empty());
}

/// `agreement` does the same where the same text stands at another offset.
pub proof fn lemma_agreement_moved(s: Seq<u8>, p: int, t: Seq<u8>, k: int, w: Seq<u8>, j: int)
    requires
        same_from(s, p, t, k),
        0 <= j,
    ensures
        agreement(t, p + k, w, j) == agreement(s, p, w, j),
    decreases w.len() - j,
{
    assert(at(s, p + j) == at(t, p + j + k));
    if j < w.len() && p + j < s.len() && s[p + j] == w[j] {
        lemma_agreement_moved(s, p, t, k, w, j + 1);
    }
}

/// `literal` does the same where the same text stands at another offset.
pub proof fn lemma_literal_moved(s: Seq<u8>, p: int, t: Seq<u8>, k: int, w: Seq<u8>)
    requires
        same_from(s, p, t, k),
    ensures
        literal(t, p + k, w) == moved(literal(s, p, w), k),
{
    lemma_agreement_moved(s, p, t, k, w, 0);
    assert(moved_nodes(Seq::<NodeView>::empty(), k) =~= Seq::<NodeView>::empty());
}

/// `keyword` does the same where the same text stands at another offset.
pub proof fn lemma_keyword_moved(s: Seq<u8>, p: int, t: Seq<u8>, k: int, w: Seq<u8>)
    requires
        same_from(s, p, t, k),
    ensures
        keyword(t, p + k, w) == moved(keyword(s, p, w), k),
{
    lemma_literal_moved(s, p, t, k, w);
    let l = literal(s, p, w);
    crate::locality::agreeing::lemma_agreement_at_least(s, p, w, 0);
    assert(at(s, l.end) == at(t, l.end + k));
    assert(moved_nodes(Seq::<NodeView>::empty(), k) =~= Seq::<NodeView>::empty());
}

/// `trivia_end` does the same where the same text stands at another offset.
pub proof fn lemma_trivia_end_moved(s: Seq<u8>, p: int, t: Seq<u8>, k: int, in_comment: bool)
    requires
        same_from(s, p, t, k),
    ensures
        trivia_end(t, p + k, in_comment) == trivia_end(s, p, in_comment) + k,
    decreases s.len() - p,
{
    assert(at(s, p) == at(t, p + k));
    if p < s.len() {
        if in_comment {
            lemma_trivia_end_moved(s, p + 1, t, k, s[p] != LINE_FEED);
        } else if Class::Space.has(s[p]) {
            lemma_trivia_end_moved(s, p + 1, t, k, false);
        } else if s[p] == HASH {
            lemma_trivia_end_moved(s, p + 1, t, k, true);
        }
    }
}

/// `trivia` does the same where the same text stands at another offset.
pub proof fn lemma_trivia_moved(s: Seq<u8>, p: int, t: Seq<u8>, k: int)
    requires
        same_from(s, p, t, k),
    ensures
        trivia(t, p + k) == moved(trivia(s, p), k),
{
    lemma_trivia_end_moved(s, p, t, k, false);
    assert(moved_nodes(Seq::<NodeView>::empty(), k) =~= Seq::<NodeView>::empty());
}

} // verus!
