use vstd::prelude::*;
use crate::rule::Rule;
use crate::tree::NodeView;

verus! {

/// What one attempt to match a production at a position amounts to.
///
/// `end` is where the match stops and `nodes` are the tree nodes it leaves,
/// parents before children; both are meaningful when `ok` holds. `seen` is
/// one more than the largest index the attempt looked at, where looking past
/// the last byte counts as looking at the index one past it.
pub struct Step {
    pub ok: bool,
    pub end: int,
    pub seen: int,
    pub nodes: Seq<NodeView>,
}

pub open spec fn max(a: int, b: int) -> int {
    if a >= b { a } else { b }
}

/// A failed attempt at `p` that looked at the bytes before `seen`.
pub open spec fn fail(p: int, seen: int) -> Step {
    Step { ok: false, end: p, seen, nodes: Seq::empty() }
}

/// A match that consumes nothing and looks at nothing.
pub open spec fn empty(p: int) -> Step {
    Step { ok: true, end: p, seen: p, nodes: Seq::empty() }
}

/// `a` followed by `b`, where `b` was attempted at `a.end`.
pub open spec fn join(a: Step, b: Step) -> Step {
    if !a.ok {
        a
    } else {
        Step { ok: b.ok, end: b.end, seen: max(a.seen, b.seen), nodes: a.nodes + b.nodes }
    }
}

/// `a` if it matched, else `b`, where both were attempted at the same position.
pub open spec fn either(a: Step, b: Step) -> Step {
    if a.ok {
        a
    } else {
        Step { ok: b.ok, end: b.end, seen: max(a.seen, b.seen), nodes: b.nodes }
    }
}

/// `a` if it matched at `p`, else the empty match at `p`.
pub open spec fn opt(p: int, a: Step) -> Step {
    if a.ok {
        a
    } else {
        Step { ok: true, end: p, seen: a.seen, nodes: Seq::empty() }
    }
}

/// The attempt `body` at `p` as a production that leaves no node of its own.
pub open spec fn quiet(p: int, body: Step) -> Step {
    if body.ok {
        body
    } else {
        fail(p, body.seen)
    }
}

/// The attempt `body` at `p` as the production `rule`: on a match, one node
/// for `rule` that spans the match, followed by the nodes of `body`.
pub open spec fn node(rule: Rule, p: int, body: Step) -> Step {
    if body.ok {
        Step {
            ok: true,
            end: body.end,
            seen: body.seen,
            nodes: seq![
                NodeView { rule, start: p, end: body.end, size: body.nodes.len() as int + 1 },
            ] + body.nodes,
        }
    } else {
        fail(p, body.seen)
    }
}

} // verus!
