use vstd::prelude::*;
use crate::grammar::lexical::{
    byte, keyword, lemma_agreement_bounds, lemma_run_end_bounds, lemma_trivia_end_bounds, literal,
    one, other, run, trivia, Class,
};
use crate::grammar::step::{either, join, node, opt, quiet, Step};
use crate::rule::Rule;
use crate::tree::NodeView;

verus! {

/// Whether `nodes` lists trees that stand one after the other between the
/// offsets `lo` and `hi`: the first node spans a range inside `lo..hi`, the
/// nodes of its subtree follow it and lie inside that range in the same
/// way, and the trees after it lie between its end and `hi`.
pub open spec fn forest(nodes: Seq<NodeView>, lo: int, hi: int) -> bool
    decreases nodes.len(),
{
    if nodes.len() == 0 {
        lo <= hi
    } else {
        let n = nodes[0];
        &&& 1 <= n.size <= nodes.len()
        &&& lo <= n.start <= n.end <= hi
        &&& forest(nodes.subrange(1, n.size), n.start, n.end)
        &&& forest(nodes.subrange(n.size, nodes.len() as int), n.end, hi)
    }
}

/// Whether the attempt `st`, made at `p` in `s`, is well behaved: it has
/// looked at everything from `p` up to where it stopped; and where it
/// matched, it ends at or after `p` within `s`, and its nodes are a forest
/// between `p` and its end.
pub open spec fn nested(s: Seq<u8>, p: int, st: Step) -> bool {
    &&& p <= st.seen
    &&& st.ok ==> p <= st.end <= s.len() && st.end <= st.seen && forest(st.nodes, p, st.end)
}

/// A forest between two offsets is one between any wider two.
pub proof fn lemma_forest_widen(nodes: Seq<NodeView>, lo: int, hi: int, lo2: int, hi2: int)
    requires
        forest(nodes, lo, hi),
        lo2 <= lo,
        hi <= hi2,
    ensures
        forest(nodes, lo2, hi2),
    decreases nodes.len(),
{
    if nodes.len() > 0 {
        let n = nodes[0];
        lemma_forest_widen(nodes.subrange(n.size, nodes.len() as int), n.end, hi, n.end, hi2);
    }
}

/// A forest that ends where another starts, followed by that other, is a
/// forest.
pub proof fn lemma_forest_concat(a: Seq<NodeView>, b: Seq<NodeView>, lo: int, mid: int, hi: int)
    requires
        forest(a, lo, mid),
        forest(b, mid, hi),
    ensures
        forest(a + b, lo, hi),
    decreases a.len(),
{
    if a.len() == 0 {
        assert(a + b =~= b);
        lemma_forest_widen(b, mid, hi, lo, hi);
    } else {
        let n = a[0];
        let rest = a.subrange(n.size, a.len() as int);
        lemma_forest_concat(rest, b, n.end, mid, hi);
        assert((a + b).subrange(1, n.size) =~= a.subrange(1, n.size));
        assert((a + b).subrange(n.size, (a + b).len() as int) =~= rest + b);
    }
}

/// A node in front of the forest that it spans is a forest of one tree.
pub proof fn lemma_forest_node(rule: Rule, body: Seq<NodeView>, p: int, e: int)
    requires
        forest(body, p, e),
    ensures
        forest(seq![NodeView { rule, start: p, end: e, size: body.len() as int + 1 }] + body, p, e),
{
    let n = NodeView { rule, start: p, end: e, size: body.len() as int + 1 };
    let all = seq![n] + body;
    assert(all.subrange(1, n.size) =~= body);
    assert(all.subrange(n.size, all.len() as int) =~= Seq::<NodeView>::empty());
    assert(all[0] == n);
    assert(all.len() == body.len() + 1);
    lemma_forest_order(body, p, e);
    assert(forest(all.subrange(1, n.size), n.start, n.end));
    assert(forest(all.subrange(n.size, all.len() as int), n.end, e));
    assert(forest(all, p, e));
}

/// A forest lies between offsets in order.
pub proof fn lemma_forest_order(nodes: Seq<NodeView>, lo: int, hi: int)
    requires
        forest(nodes, lo, hi),
    ensures
        lo <= hi,
    decreases nodes.len(),
{
    if nodes.len() > 0 {
        let n = nodes[0];
        lemma_forest_order(nodes.subrange(n.size, nodes.len() as int), n.end, hi);
    }
}

/// One attempt after another is well behaved where both are.
pub proof fn lemma_join_nested(s: Seq<u8>, p: int, a: Step, b: Step)
    requires
        nested(s, p, a),
        a.ok ==> nested(s, a.end, b),
    ensures
        nested(s, p, join(a, b)),
{
    if a.ok && b.ok {
        lemma_forest_concat(a.nodes, b.nodes, p, a.end, b.end);
    }
}

/// One attempt or else another is well behaved where both are.
pub proof fn lemma_either_nested(s: Seq<u8>, p: int, a: Step, b: Step)
    requires
        nested(s, p, a),
        nested(s, p, b),
    ensures
        nested(s, p, either(a, b)),
{
}

/// An attempt that may be left out is well behaved where the attempt is.
pub proof fn lemma_opt_nested(s: Seq<u8>, p: int, a: Step)
    requires
        0 <= p <= s.len(),
        nested(s, p, a),
    ensures
        nested(s, p, opt(p, a)),
{
}

/// An attempt that leaves no node of its own is well behaved where its parts are.
pub proof fn lemma_quiet_nested(s: Seq<u8>, p: int, a: Step)
    requires
        nested(s, p, a),
    ensures
        nested(s, p, quiet(p, a)),
{
}

/// An attempt that leaves a node is well behaved where its parts are.
pub proof fn lemma_node_nested(s: Seq<u8>, rule: Rule, p: int, a: Step)
    requires
        nested(s, p, a),
    ensures
        nested(s, p, node(rule, p, a)),
{
    if a.ok {
        lemma_forest_node(rule, a.nodes, p, a.end);
    }
}

/// What `one` makes of any input is well behaved.
pub proof fn lemma_one_nested(s: Seq<u8>, p: int, c: Class)
    ensures
        nested(s, p, one(s, p, c)),
{
}

/// What `byte` makes of any input is well behaved.
pub proof fn lemma_byte_nested(s: Seq<u8>, p: int, b: u8)
    ensures
        nested(s, p, byte(s, p, b)),
{
}

/// What `other` makes of any input is well behaved.
pub proof fn lemma_other_nested(s: Seq<u8>, p: int, a: u8, b: u8)
    ensures
        nested(s, p, other(s, p, a, b)),
{
}

/// What `run` makes of any input is well behaved.
pub proof fn lemma_run_nested(s: Seq<u8>, p: int, c: Class)
    requires
        0 <= p <= s.len(),
    ensures
        nested(s, p, run(s, p, c)),
{
    lemma_run_end_bounds(s, p, c);
}

/// What `literal` makes of any input is well behaved.
pub proof fn lemma_literal_nested(s: Seq<u8>, p: int, w: Seq<u8>)
    requires
        0 <= p <= s.len(),
    ensures
        nested(s, p, literal(s, p, w)),
{
    lemma_agreement_bounds(s, p, w, 0);
}

/// What `keyword` makes of any input is well behaved.
pub proof fn lemma_keyword_nested(s: Seq<u8>, p: int, w: Seq<u8>)
    requires
        0 <= p <= s.len(),
    ensures
        nested(s, p, keyword(s, p, w)),
{
    lemma_agreement_bounds(s, p, w, 0);
}

/// What `trivia` makes of any input is well behaved.
pub proof fn lemma_trivia_nested(s: Seq<u8>, p: int)
    requires
        0 <= p <= s.len(),
    ensures
        nested(s, p, trivia(s, p)),
{
    lemma_trivia_end_bounds(s, p, false);
}

} // verus!
