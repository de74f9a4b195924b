use vstd::prelude::*;
use crate::rule::Rule;

verus! {

/// One node of a syntax tree, as the mathematical value that contracts speak
/// of. `size` counts the node itself and every node below it.
pub struct NodeView {
    pub rule: Rule,
    pub start: int,
    pub end: int,
    pub size: int,
}

/// One node of a syntax tree: the production that matched, the bytes
/// `start..end` of the source that it covers, and the number of nodes in its
/// subtree (itself included).
///
/// A node holds offsets only, so it never copies source text.
#[derive(Clone, Copy, Debug, PartialEq, Eq, Structural)]
pub struct SyntaxNode {
    pub rule: Rule,
    pub start: usize,
    pub end: usize,
    pub size: usize,
}

impl View for SyntaxNode {
    type V = NodeView;

    open spec fn view(&self) -> NodeView {
        NodeView {
            rule: self.rule,
            start: self.start as int,
            end: self.end as int,
            size: self.size as int,
        }
    }
}

/// The views of a sequence of nodes, in the same order.
pub open spec fn views(nodes: Seq<SyntaxNode>) -> Seq<NodeView> {
    Seq::new(nodes.len(), |i: int| nodes[i]@)
}

/// A syntax tree: its nodes in the order in which they start, every parent
/// before its children. The first node is the root; the subtree of the
/// node at index `i` is the `size` nodes from `i` on.
#[derive(Debug)]
pub struct SyntaxTree {
    pub nodes: Vec<SyntaxNode>,
}

impl View for SyntaxTree {
    type V = Seq<NodeView>;

    open spec fn view(&self) -> Seq<NodeView> {
        views(self.nodes@)
    }
}

/// The indices, among `nodes`, of the trees that stand one after the other
/// from the index `j` up to the index `end`: `j`, then the index behind the
/// subtree of `j`, and so on.
pub open spec fn siblings(nodes: Seq<NodeView>, j: int, end: int) -> Seq<int>
    decreases end - j,
{
    if 0 <= j < end <= nodes.len() && 1 <= nodes[j].size <= end - j {
        seq![j] + siblings(nodes, j + nodes[j].size, end)
    } else {
        Seq::empty()
    }
}

/// The indices of the children of the node at the index `i`.
pub open spec fn children_of(nodes: Seq<NodeView>, i: int) -> Seq<int> {
    siblings(nodes, i + 1, i + nodes[i].size)
}

impl SyntaxTree {
    /// The number of nodes.
    pub fn len(&self) -> (n: usize)
        ensures
            n == self@.len(),
    {
        self.nodes.len()
    }

    /// The node at the index `i`.
    pub fn node(&self, i: usize) -> (n: SyntaxNode)
        requires
            i < self@.len(),
        ensures
            n@ == self@[i as int],
    {
        self.nodes[i]
    }

    /// The indices of the children of the node at the index `i`, in the
    /// order of the text.
    pub fn children(&self, i: usize) -> (kids: Vec<usize>)
        requires
            i < self@.len(),
        ensures
            kids@.len() == children_of(self@, i as int).len(),
            forall|k: int| 0 <= k < kids@.len() ==> kids@[k] == children_of(self@, i as int)[k],
    {
        let mut kids: Vec<usize> = Vec::new();
        let size = self.nodes[i].size;
        if size > self.nodes.len() - i {
            return kids;
        }
        let end = i + size;
        let mut j = i + 1;
        let ghost all = children_of(self@, i as int);
        while j < end && 1 <= self.nodes[j].size && self.nodes[j].size <= end - j
            invariant
                i < self@.len(),
                end == i + self@[i as int].size,
                end <= self@.len(),
                i < j,
                all == children_of(self@, i as int),
                all.len() == kids@.len() + siblings(self@, j as int, end as int).len(),
                forall|k: int| 0 <= k < kids@.len() ==> kids@[k] == all[k],
                forall|k: int|
                    0 <= k < siblings(self@, j as int, end as int).len() ==> all[kids@.len() + k]
                        == siblings(self@, j as int, end as int)[k],
            decreases end - j,
        {
            let ghost before = siblings(self@, j as int, end as int);
            let ghost next = siblings(self@, j + self@[j as int].size, end as int);
            proof {
                assert(before =~= seq![j as int] + next);
                assert(all[kids@.len() as int] == before[0]);
                assert forall|k: int| 0 <= k < next.len() implies all[kids@.len() + 1 + k]
                    == next[k] by {
                    assert(before[k + 1] == next[k]);
                }
            }
            kids.push(j);
            j = j + self.nodes[j].size;
        }
        kids
    }
}

/// Why a parse failed: the production asked for, and the largest offset
/// that the parse looked at before it gave up.
#[derive(Clone, Copy, Debug, PartialEq, Eq, Structural)]
pub struct SyntaxError {
    pub rule: Rule,
    pub offset: usize,
}

} // verus!
