//! Stepping a sequence of sizes with a bound on how much is taken at a time.
use vstd::prelude::*;

verus! {

/// The result of stepping an [`IncrementalIterator`] with a limit on the size returned.
#[derive(Debug, PartialEq, Eq, Clone, Copy)]
pub struct Partial {
    /// The amount returned.
    pub size: u16,
    /// Whether the amount returned belongs to a new element.
    pub new: bool,
}

/// An adaptor over a sequence of sizes which hands out each size in parts: a size which does not
/// fit within the bound given to [`next_partial`](Self::next_partial) is returned up to the bound,
/// and the excess is returned by the following calls.
pub struct IncrementalIterator {
    /// The sizes, in the order in which they are handed out.
    items: Vec<usize>,
    /// How many sizes have been started.
    pos: usize,
    /// The part of the last started size which has not been handed out yet.
    partial: usize,
}

impl IncrementalIterator {
    /// The sizes handed out by this iterator.
    pub closed spec fn items(&self) -> Seq<usize> {
        self.items@
    }

    /// How many sizes have been started.
    pub closed spec fn pos(&self) -> nat {
        self.pos as nat
    }

    /// The part of the last started size which is still to be handed out.
    pub closed spec fn partial(&self) -> nat {
        self.partial as nat
    }

    /// The internal invariant: the part still owed belongs to the last started size.
    pub closed spec fn wf(&self) -> bool {
        &&& self.pos <= self.items@.len()
        &&& self.partial > 0 ==> self.pos > 0 && self.partial <= self.items@[self.pos - 1]
    }

    /// What the invariant says of the position and of the part still owed.
    pub proof fn lemma_wf_bounds(&self)
        requires
            self.wf(),
        ensures
            self.pos() <= self.items().len(),
            self.partial() > 0 ==> self.pos() > 0 && self.partial() <= self.items()[self.pos() - 1],
    {
    }

    /// Returns a new [`IncrementalIterator`] over the given sizes.
    pub fn new(iter: Vec<usize>) -> (r: Self)
        ensures
            r.wf(),
            r.items() == iter@,
            r.pos() == 0,
            r.partial() == 0,
    {
        Self { items: iter, pos: 0, partial: 0 }
    }

    /// Whether the previously returned size is incomplete, so that the next call of
    /// [`next_partial`](Self::next_partial) continues it rather than starting a new size.
    pub fn is_incomplete(&self) -> (r: bool)
        ensures
            r == (self.partial() > 0),
    {
        self.partial > 0
    }

    /// Return the next [`Partial`] constrained by the provided limit.
    ///
    /// The returned size never exceeds `limit`; the first value returned is either `None` or a
    /// new element.
    pub fn next_partial(&mut self, limit: u16) -> (r: Option<Partial>)
        requires
            old(self).wf(),
        ensures
            final(self).wf(),
            final(self).items() == old(self).items(),
            old(self).partial() > 0 ==> {
                &&& r == Some(Partial {
                    size: if old(self).partial() > limit { limit } else { old(self).partial() as u16 },
                    new: false,
                })
                &&& final(self).pos() == old(self).pos()
                &&& final(self).partial() == if old(self).partial() > limit {
                    old(self).partial() - limit
                } else {
                    0
                }
            },
            old(self).partial() == 0 && old(self).pos() < old(self).items().len() ==> {
                let item = old(self).items()[old(self).pos() as int];
                &&& r == Some(Partial {
                    size: if item > limit { limit } else { item as u16 },
                    new: true,
                })
                &&& final(self).pos() == old(self).pos() + 1
                &&& final(self).partial() == if item > limit { item - limit } else { 0 }
            },
            old(self).partial() == 0 && old(self).pos() == old(self).items().len() ==> {
                &&& r is None
                &&& final(self).pos() == old(self).pos()
                &&& final(self).partial() == 0
            },
    {
        if self.partial > 0 {
            let size = if self.partial > limit as usize {
                self.partial = self.partial - limit as usize;
                limit
            } else {
                let ret = self.partial as u16;
                self.partial = 0;
                ret
            };
            Some(Partial { new: false, size })
        } else if self.pos < self.items.len() {
            let new = self.items[self.pos];
            self.pos = self.pos + 1;
            let size = if new > limit as usize {
                self.partial = new - limit as usize;
                limit
            } else {
                new as u16
            };
            Some(Partial { new: true, size })
        } else {
            None
        }
    }
}

} // verus!
