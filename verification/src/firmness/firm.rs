use vstd::prelude::*;
use crate::grammar::step::{join, node, Step};
use crate::rule::Rule;
use crate::tree::NodeView;

verus! {

/// Whether every node of `nodes` spans something: it ends behind where it
/// starts.
pub open spec fn solid(nodes: Seq<NodeView>) -> bool {
    forall|i: int| 0 <= i < nodes.len() ==> (#[trigger] nodes[i]).start < nodes[i].end
}

/// Whether the attempt `st`, where it matched, left nodes that span
/// something each.
pub open spec fn firm(st: Step) -> bool {
    st.ok ==> solid(st.nodes)
}

/// One attempt after another leaves nodes that span something where both
/// do.
pub proof fn lemma_join_firm(a: Step, b: Step)
    requires
        firm(a),
        a.ok ==> firm(b),
    ensures
        firm(join(a, b)),
{
    if a.ok && b.ok {
        let all = a.nodes + b.nodes;
        assert forall|i: int| 0 <= i < all.len() implies (#[trigger] all[i]).start
            < all[i].end by {
            if i < a.nodes.len() {
                assert(all[i] == a.nodes[i]);
            } else {
                assert(all[i] == b.nodes[i - a.nodes.len()]);
            }
        }
    }
}

/// An attempt that leaves a node leaves nodes that span something where
/// its parts do and it is not empty.
pub proof fn lemma_node_firm(rule: Rule, p: int, a: Step)
    requires
        firm(a),
        a.ok ==> p < a.end,
    ensures
        firm(node(rule, p, a)),
{
    if a.ok {
        let all = node(rule, p, a).nodes;
        assert forall|i: int| 0 <= i < all.len() implies (#[trigger] all[i]).start
            < all[i].end by {
            if i > 0 {
                assert(all[i] == a.nodes[i - 1]);
            }
        }
    }
}

} // verus!
