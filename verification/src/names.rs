use vstd::prelude::*;
use crate::context::Context;
use crate::grammar::lexical::{Class, UNDERSCORE};
use crate::grammar::names;
use crate::rule::Rule;

verus! {

impl<'input> Context<'input> {
    /// An upper-case letter and what continues the identifier.
    pub fn upper_ident(&mut self) -> (ok: bool)
        requires
            old(self).wf(),
        ensures
            final(self).follows(
                old(self),
                ok,
                names::upper_ident(old(self).bytes(), old(self).at()),
            ),
    {
        self.one(Class::Upper) && self.run(Class::Word)
    }

    /// A lower-case letter and what continues the identifier.
    pub fn lower_ident(&mut self) -> (ok: bool)
        requires
            old(self).wf(),
        ensures
            final(self).follows(
                old(self),
                ok,
                names::lower_ident(old(self).bytes(), old(self).at()),
            ),
    {
        self.one(Class::Lower) && self.run(Class::Word)
    }

    /// `_`, an upper-case letter and what continues the identifier.
    pub fn interface_ident(&mut self) -> (ok: bool)
        requires
            old(self).wf(),
        ensures
            final(self).follows(
                old(self),
                ok,
                names::interface_ident(old(self).bytes(), old(self).at()),
            ),
    {
        let m = self.mark();
        if !self.byte(UNDERSCORE) {
            return false;
        }
        if !self.one(Class::Upper) {
            return self.rewind(m);
        }
        self.run(Class::Word)
    }

    /// One namespace segment: an upper-case identifier and `::`.
    pub fn segment(&mut self) -> (ok: bool)
        requires
            old(self).wf(),
        ensures
            final(self).follows(old(self), ok, names::segment(old(self).bytes(), old(self).at())),
    {
        let m = self.mark();
        if !self.upper_ident() {
            return false;
        }
        if !self.literal("::") {
            return self.rewind(m);
        }
        true
    }

    /// As many namespace segments as there are; never fails.
    pub fn segments(&mut self) -> (ok: bool)
        requires
            old(self).wf(),
        ensures
            ok,
            final(self).follows(old(self), ok, names::segments(old(self).bytes(), old(self).at())),
    {
        let ghost s = self.bytes();
        let ghost total = names::segments(s, self.at());
        loop
            invariant
                self.resumes(old(self), total, names::segments(s, self.at())),
                self.bytes() == s,
            ensures
                final(self).follows(old(self), true, total),
            decreases self.end_offset - self.current_offset,
        {
            proof {
                if names::segment(s, self.at()).ok {
                    names::lemma_segment_bounds(s, self.at());
                }
            }
            if !self.segment() {
                break;
            }
        }
        true
    }

    /// The namespace in front of a name; never fails.
    pub fn namespace(&mut self) -> (ok: bool)
        requires
            old(self).wf(),
        ensures
            ok,
            final(self).follows(old(self), ok, names::namespace(old(self).bytes(), old(self).at())),
    {
        proof {
            reveal(names::namespace);
        }
        self.literal("::");
        self.segments()
    }

    /// A name that ends in an upper-case identifier.
    pub fn class_name(&mut self) -> (ok: bool)
        requires
            old(self).wf(),
        ensures
            final(self).follows(
                old(self),
                ok,
                names::class_name(old(self).bytes(), old(self).at()),
            ),
    {
        proof {
            reveal(names::class_name);
        }
        let m = self.open();
        self.namespace();
        if !self.upper_ident() {
            return self.rewind(m);
        }
        self.close(Rule::ClassName, m)
    }

    /// A name that ends in `_` and an upper-case identifier.
    pub fn interface_name(&mut self) -> (ok: bool)
        requires
            old(self).wf(),
        ensures
            final(self).follows(
                old(self),
                ok,
                names::interface_name(old(self).bytes(), old(self).at()),
            ),
    {
        proof {
            reveal(names::interface_name);
        }
        let m = self.open();
        self.namespace();
        if !self.interface_ident() {
            return self.rewind(m);
        }
        self.close(Rule::InterfaceName, m)
    }

    /// A name that ends in a lower-case identifier.
    pub fn alias_name(&mut self) -> (ok: bool)
        requires
            old(self).wf(),
        ensures
            final(self).follows(
                old(self),
                ok,
                names::alias_name(old(self).bytes(), old(self).at()),
            ),
    {
        proof {
            reveal(names::alias_name);
        }
        let m = self.open();
        self.namespace();
        if !self.lower_ident() {
            return self.rewind(m);
        }
        self.close(Rule::AliasName, m)
    }

    /// The name of a constant.
    pub fn const_name(&mut self) -> (ok: bool)
        requires
            old(self).wf(),
        ensures
            final(self).follows(
                old(self),
                ok,
                names::const_name(old(self).bytes(), old(self).at()),
            ),
    {
        proof {
            reveal(names::const_name);
        }
        let m = self.open();
        self.namespace();
        if !self.upper_ident() {
            return self.rewind(m);
        }
        self.close(Rule::ConstName, m)
    }
}

} // verus!
