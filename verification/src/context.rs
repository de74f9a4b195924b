use vstd::prelude::*;
use vstd::string::StringSliceAdditionalSpecFns;
use crate::grammar::lexical::{
    agreement, byte, end_of_input, keyword, literal, one, other, run, run_end, trivia,
    trivia_end, Class, HASH, LINE_FEED,
};
use crate::grammar::step::{max, Step};
use crate::rule::Rule;
use crate::tree::{views, NodeView, SyntaxNode};

verus! {

/// The parse cursor: the source text, the offset reached in it, the nodes
/// left so far, and the largest offset that any attempt has looked at.
///
/// A production is a method that either advances the cursor over what it
/// matched and appends its nodes, or leaves offset and nodes as they were.
/// `furthest` only ever grows, so after a failure it tells where the parse
/// got stuck.
pub struct Context<'input> {
    pub current_offset: usize,
    pub end_offset: usize,
    pub text: &'input str,
    pub furthest: usize,
    pub nodes: Vec<SyntaxNode>,
}

/// Where a production started: the offset, and the index of its node.
pub struct Mark {
    pub offset: usize,
    pub index: usize,
}

/// The node that holds the place of a production while it is attempted.
pub open spec fn pending(p: int) -> NodeView {
    NodeView { rule: Rule::Type, start: p, end: p, size: 1 }
}

impl<'input> Context<'input> {
    /// The bytes of the source text.
    pub open spec fn bytes(&self) -> Seq<u8> {
        self.text.spec_bytes()
    }

    /// The nodes left so far, parents before children.
    pub open spec fn queue(&self) -> Seq<NodeView> {
        views(self.nodes@)
    }

    /// The offset reached, as a mathematical integer.
    pub open spec fn at(&self) -> int {
        self.current_offset as int
    }

    /// The offsets lie within the text, and every byte before the cursor
    /// has been looked at.
    pub open spec fn wf(&self) -> bool {
        &&& self.end_offset == self.bytes().len()
        &&& self.current_offset <= self.end_offset
        &&& self.furthest <= self.end_offset
        &&& self.current_offset <= self.furthest + 1
    }

    /// This cursor is what `pre` becomes by the attempt `st`, which was made
    /// at `pre`'s offset and reported `ok`: on a match the offset is the
    /// end of the match and the nodes of `st` are appended; otherwise offset
    /// and nodes are those of `pre`. Either way the cursor has not moved
    /// back, and `furthest` covers what the attempt looked at.
    pub open spec fn follows(&self, pre: &Context, ok: bool, st: Step) -> bool {
        &&& self.wf()
        &&& self.text@ == pre.text@
        &&& pre.current_offset <= self.current_offset
        &&& ok == st.ok
        &&& self.furthest == max(pre.furthest as int, st.seen - 1)
        &&& if st.ok {
            self.current_offset == st.end && self.queue() =~= pre.queue() + st.nodes
        } else {
            self.current_offset == pre.current_offset && self.queue() =~= pre.queue()
        }
    }

    /// This cursor is on the way from `pre` to what the attempt `total`
    /// makes of it: `rest`, attempted here, is what is left of `total`.
    pub open spec fn resumes(&self, pre: &Context, total: Step, rest: Step) -> bool {
        &&& self.wf()
        &&& self.text@ == pre.text@
        &&& pre.current_offset <= self.current_offset
        &&& rest.ok == total.ok
        &&& rest.end == total.end
        &&& max(self.furthest as int, rest.seen - 1) == max(pre.furthest as int, total.seen - 1)
        &&& self.queue() + rest.nodes =~= pre.queue() + total.nodes
    }

    /// A cursor at the start of `text`.
    pub fn new(text: &'input str) -> (ctx: Self)
        ensures
            ctx.wf(),
            ctx.text@ == text@,
            ctx.current_offset == 0,
            ctx.end_offset == text.spec_bytes().len(),
            ctx.furthest == 0,
            ctx.nodes@.len() == 0,
    {
        Self {
            current_offset: 0,
            end_offset: text.as_bytes().len(),
            text,
            furthest: 0,
            nodes: Vec::new(),
        }
    }

    /// Records that the attempt in progress looked at the index `i`.
    fn look(&mut self, i: usize)
        requires
            old(self).wf(),
            i <= old(self).end_offset,
        ensures
            final(self).wf(),
            final(self).text@ == old(self).text@,
            final(self).current_offset == old(self).current_offset,
            final(self).nodes == old(self).nodes,
            final(self).furthest == max(old(self).furthest as int, i as int),
    {
        if i > self.furthest {
            self.furthest = i;
        }
    }

    /// The place where a production that leaves no node of its own starts.
    pub fn mark(&self) -> (m: Mark)
        ensures
            m.offset == self.current_offset,
            m.index == self.nodes@.len(),
    {
        Mark { offset: self.current_offset, index: self.nodes.len() }
    }

    /// Starts a production that leaves a node: keeps a place for the node
    /// in front of those of its parts.
    pub fn open(&mut self) -> (m: Mark)
        requires
            old(self).wf(),
        ensures
            final(self).wf(),
            final(self).text@ == old(self).text@,
            final(self).current_offset == old(self).current_offset,
            final(self).furthest == old(self).furthest,
            final(self).queue() =~= old(self).queue().push(pending(old(self).at())),
            m.offset == old(self).current_offset,
            m.index == old(self).nodes@.len(),
    {
        let m = Mark { offset: self.current_offset, index: self.nodes.len() };
        self.nodes.push(
            SyntaxNode { rule: Rule::Type, start: m.offset, end: m.offset, size: 1 },
        );
        m
    }

    /// Gives up the production that started at `m`: back to its offset,
    /// and its nodes dropped.
    pub fn rewind(&mut self, m: Mark) -> (ok: bool)
        requires
            old(self).wf(),
            m.index <= old(self).nodes@.len(),
            m.offset <= old(self).current_offset,
        ensures
            !ok,
            final(self).wf(),
            final(self).text@ == old(self).text@,
            final(self).current_offset == m.offset,
            final(self).furthest == old(self).furthest,
            final(self).queue() =~= old(self).queue().take(m.index as int),
    {
        self.nodes.truncate(m.index);
        self.current_offset = m.offset;
        false
    }

    /// Completes the production `rule` that `open` started at `m`: its node
    /// spans from there to the cursor and counts every node left since.
    pub fn close(&mut self, rule: Rule, m: Mark) -> (ok: bool)
        requires
            old(self).wf(),
            m.index < old(self).nodes@.len(),
            m.offset <= old(self).current_offset,
        ensures
            ok,
            final(self).wf(),
            final(self).text@ == old(self).text@,
            final(self).current_offset == old(self).current_offset,
            final(self).furthest == old(self).furthest,
            final(self).queue() =~= old(self).queue().update(
                m.index as int,
                NodeView {
                    rule,
                    start: m.offset as int,
                    end: old(self).at(),
                    size: old(self).nodes@.len() - m.index,
                },
            ),
    {
        let size = self.nodes.len() - m.index;
        self.nodes[m.index] = SyntaxNode { rule, start: m.offset, end: self.current_offset, size };
        true
    }

    /// One byte of the class `c`.
    pub fn one(&mut self, c: Class) -> (ok: bool)
        requires
            old(self).wf(),
        ensures
            final(self).follows(old(self), ok, one(old(self).bytes(), old(self).at(), c)),
    {
        let p = self.current_offset;
        self.look(p);
        if p < self.end_offset && c.contains(self.text.as_bytes()[p]) {
            self.current_offset = p + 1;
            true
        } else {
            false
        }
    }

    /// The byte `b`.
    pub fn byte(&mut self, b: u8) -> (ok: bool)
        requires
            old(self).wf(),
        ensures
            final(self).follows(old(self), ok, byte(old(self).bytes(), old(self).at(), b)),
    {
        let p = self.current_offset;
        self.look(p);
        if p < self.end_offset && self.text.as_bytes()[p] == b {
            self.current_offset = p + 1;
            true
        } else {
            false
        }
    }

    /// A byte other than `a` and `b`.
    pub fn other(&mut self, a: u8, b: u8) -> (ok: bool)
        requires
            old(self).wf(),
        ensures
            final(self).follows(old(self), ok, other(old(self).bytes(), old(self).at(), a, b)),
    {
        let p = self.current_offset;
        self.look(p);
        if p < self.end_offset && self.text.as_bytes()[p] != a && self.text.as_bytes()[p] != b {
            self.current_offset = p + 1;
            true
        } else {
            false
        }
    }

    /// As many bytes of the class `c` as there are; never fails.
    pub fn run(&mut self, c: Class) -> (ok: bool)
        requires
            old(self).wf(),
        ensures
            ok,
            final(self).follows(old(self), ok, run(old(self).bytes(), old(self).at(), c)),
    {
        let src = self.text.as_bytes();
        let mut i = self.current_offset;
        while i < self.end_offset && c.contains(src[i])
            invariant
                self.wf(),
                src@ == self.bytes(),
                self.current_offset <= i <= self.end_offset,
                run_end(self.bytes(), i as int, c) == run_end(self.bytes(), self.at(), c),
            decreases self.end_offset - i,
        {
            i += 1;
        }
        self.look(i);
        self.current_offset = i;
        true
    }

    /// The bytes of `word`, one after the other.
    pub fn literal(&mut self, word: &str) -> (ok: bool)
        requires
            old(self).wf(),
        ensures
            final(self).follows(
                old(self),
                ok,
                literal(old(self).bytes(), old(self).at(), word.spec_bytes()),
            ),
    {
        let src = self.text.as_bytes();
        let w = word.as_bytes();
        let p = self.current_offset;
        let mut j: usize = 0;
        while j < w.len() && j < self.end_offset - p && src[p + j] == w[j]
            invariant
                self.wf(),
                src@ == self.bytes(),
                w@ == word.spec_bytes(),
                p == self.current_offset,
                j <= w.len(),
                p + j <= self.end_offset,
                agreement(self.bytes(), p as int, w@, j as int) == agreement(
                    self.bytes(),
                    p as int,
                    w@,
                    0,
                ),
            decreases w.len() - j,
        {
            j += 1;
        }
        if j == w.len() {
            if j > 0 {
                self.look(p + j - 1);
            }
            self.current_offset = p + j;
            true
        } else {
            self.look(p + j);
            false
        }
    }

    /// The bytes of `word`, not followed by a byte that could continue an
    /// identifier.
    pub fn keyword(&mut self, word: &str) -> (ok: bool)
        requires
            old(self).wf(),
        ensures
            final(self).follows(
                old(self),
                ok,
                keyword(old(self).bytes(), old(self).at(), word.spec_bytes()),
            ),
    {
        let p = self.current_offset;
        if !self.literal(word) {
            return false;
        }
        let e = self.current_offset;
        self.look(e);
        if e < self.end_offset && Class::Word.contains(self.text.as_bytes()[e]) {
            self.current_offset = p;
            false
        } else {
            true
        }
    }

    /// White space and comments, as much as there is; never fails.
    pub fn trivia(&mut self) -> (ok: bool)
        requires
            old(self).wf(),
        ensures
            ok,
            final(self).follows(old(self), ok, trivia(old(self).bytes(), old(self).at())),
    {
        let src = self.text.as_bytes();
        let mut i = self.current_offset;
        let mut in_comment = false;
        while i < self.end_offset && (in_comment || Class::Space.contains(src[i]) || src[i] == HASH)
            invariant
                self.wf(),
                src@ == self.bytes(),
                self.current_offset <= i <= self.end_offset,
                trivia_end(self.bytes(), i as int, in_comment) == trivia_end(
                    self.bytes(),
                    self.at(),
                    false,
                ),
            decreases self.end_offset - i,
        {
            if in_comment {
                in_comment = src[i] != LINE_FEED;
            } else {
                in_comment = src[i] == HASH;
            }
            i += 1;
        }
        self.look(i);
        self.current_offset = i;
        true
    }

    /// The end of the input.
    pub fn end_of_input(&mut self) -> (ok: bool)
        requires
            old(self).wf(),
        ensures
            final(self).follows(old(self), ok, end_of_input(old(self).bytes(), old(self).at())),
    {
        let p = self.current_offset;
        self.look(p);
        p >= self.end_offset
    }
}

} // verus!
