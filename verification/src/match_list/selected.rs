//! The queued items of a picker that selects several items.
use std::collections::BTreeMap;

use vstd::prelude::*;

verus! {

broadcast use vstd::laws_cmp::group_laws_cmp, vstd::std_specs::btree::group_btree_axioms;

/// Whether another item may be queued when `q` is queued.
pub open spec fn has_room(q: Set<u32>, limit: Option<u32>) -> bool {
    match limit {
        None => true,
        Some(l) => (q.len() as u32) < l,
    }
}

/// The queued indices after toggling `idx`.
pub open spec fn toggled(q: Set<u32>, limit: Option<u32>, idx: u32) -> Set<u32> {
    if q.contains(idx) {
        q.remove(idx)
    } else if has_room(q, limit) {
        q.insert(idx)
    } else {
        q
    }
}

/// Toggling an item twice gives back the queue it started from, whenever the queue holds no
/// more items than the limit allows.
pub proof fn lemma_toggle_twice(q: Set<u32>, limit: Option<u32>, idx: u32)
    requires
        q.finite(),
        limit matches Some(l) ==> q.len() <= l,
    ensures
        toggled(toggled(q, limit, idx), limit, idx) == q,
{
    if q.contains(idx) {
        let r = q.remove(idx);
        assert(r.len() == q.len() - 1);
        assert(r.insert(idx) =~= q);
    } else if has_room(q, limit) {
        assert(q.insert(idx).remove(idx) =~= q);
    }
}

/// Toggling never queues more items than the limit allows.
pub proof fn lemma_toggle_keeps_limit(q: Set<u32>, limit: Option<u32>, idx: u32)
    requires
        q.finite(),
        limit matches Some(l) ==> q.len() <= l,
    ensures
        toggled(q, limit, idx).finite(),
        limit matches Some(l) ==> toggled(q, limit, idx).len() <= l,
{
    if q.contains(idx) {
        assert(q.remove(idx).len() == q.len() - 1);
    } else if has_room(q, limit) {
        assert(q.insert(idx).len() == q.len() + 1);
    }
}

/// The keys of a map of `u32` are ordered as integers are.
proof fn lemma_u32_keys_ordered()
    ensures
        vstd::std_specs::btree::key_obeys_cmp_spec::<u32>(),
{
    assert(vstd::laws_cmp::obeys_cmp::<u32>());
}

/// The keys of a map, in the order in which they are walked, are its domain, in increasing order.
proof fn lemma_keys_increasing(m: &BTreeMap<u32, ()>, all: Seq<&u32>)
    requires
        all == vstd::std_specs::iter::IteratorSpec::remaining(&vstd::std_specs::btree::spec_keys_iter(m)),
    ensures
        all.unref().to_set() == m@.dom(),
        forall|i: int, j: int| 0 <= i < j < all.len() ==> *all[i] < *all[j],
{
    assert(vstd::laws_cmp::obeys_cmp::<&u32>());
    assert forall|i: int, j: int| 0 <= i < j < all.len() implies *all[i] < *all[j] by {
        assert(vstd::std_specs::cmp::OrdSpec::cmp_spec(&all[i], &all[j]) is Less);
    }
}

/// The indices of the queued items, with an optional limit on how many can be queued.
pub struct SelectedIndices {
    inner: BTreeMap<u32, ()>,
    limit: Option<u32>,
}

impl SelectedIndices {
    /// The queued indices.
    pub closed spec fn queued(&self) -> Set<u32> {
        self.inner@.dom()
    }

    /// The limit on the number of queued items, if any.
    pub closed spec fn max_queued(&self) -> Option<u32> {
        self.limit
    }

    /// The limit is positive, and the queued indices are finite.
    pub closed spec fn wf(&self) -> bool {
        &&& self.inner@.dom().finite()
        &&& self.limit matches Some(l) ==> l > 0 && self.inner@.dom().len() <= l
    }

    /// No queued items, with the given limit (which must be positive).
    pub fn init(limit: Option<u32>) -> (r: Self)
        requires
            limit matches Some(l) ==> l > 0,
        ensures
            r.wf(),
            r.queued() == Set::<u32>::empty(),
            r.max_queued() == limit,
    {
        Self { inner: BTreeMap::new(), limit }
    }

    /// Whether no item is queued.
    pub fn is_empty(&self) -> (r: bool)
        ensures
            r == (self.queued() == Set::<u32>::empty()),
    {
        let r = self.inner.is_empty();
        proof {
            if !r {
                assert(!self.inner@.is_empty());
                let k = choose|k: u32| self.inner@.dom().contains(k);
                assert(self.queued().contains(k));
            } else {
                assert(self.inner@.dom() =~= Set::<u32>::empty());
            }
        }
        r
    }

    /// Unqueue every item; returns whether any was queued.
    pub fn clear(&mut self) -> (r: bool)
        requires
            old(self).wf(),
        ensures
            final(self).wf(),
            r == (old(self).queued() != Set::<u32>::empty()),
            final(self).queued() == Set::<u32>::empty(),
            final(self).max_queued() == old(self).max_queued(),
    {
        if self.is_empty() {
            false
        } else {
            self.inner.clear();
            assert(self.inner@.dom() =~= Set::<u32>::empty());
            true
        }
    }

    /// Whether the item is queued.
    pub fn is_queued(&self, idx: u32) -> (r: bool)
        ensures
            r == self.queued().contains(idx),
    {
        self.inner.contains_key(&idx)
    }

    /// The number of queued items, as a `u32` (truncated as a cast does).
    pub fn len(&self) -> (r: u32)
        requires
            self.wf(),
        ensures
            r == self.queued().len() as u32,
    {
        self.inner.len() as u32
    }

    /// Toggle whether the item is queued: unqueue it if it is queued, and queue it if the limit
    /// allows another one. Returns whether anything changed.
    pub fn toggle(&mut self, idx: u32) -> (r: bool)
        requires
            old(self).wf(),
        ensures
            final(self).wf(),
            final(self).max_queued() == old(self).max_queued(),
            final(self).queued() == toggled(old(self).queued(), old(self).max_queued(), idx),
            r == (old(self).queued().contains(idx) || has_room(old(self).queued(), old(self).max_queued())),
    {
        proof {
            lemma_toggle_keeps_limit(self.inner@.dom(), self.limit, idx);
        }
        let n = self.inner.len() as u32;
        if self.inner.contains_key(&idx) {
            self.inner.remove(&idx);
            assert(self.inner@.dom() =~= old(self).inner@.dom().remove(idx));
            true
        } else {
            let room = match self.limit {
                None => true,
                Some(l) => n < l,
            };
            if room {
                self.inner.insert(idx, ());
                assert(self.inner@.dom() =~= old(self).inner@.dom().insert(idx));
                true
            } else {
                false
            }
        }
    }

    /// The queued indices in increasing order, each once.
    pub fn indices(&self) -> (r: Vec<u32>)
        requires
            self.wf(),
        ensures
            r@.to_set() == self.queued(),
            forall|i: int, j: int| 0 <= i < j < r@.len() ==> r@[i] < r@[j],
    {
        let mut out: Vec<u32> = Vec::new();
        proof {
            lemma_u32_keys_ordered();
        }
        let keys = self.inner.keys();
        let ghost all = vstd::std_specs::iter::IteratorSpec::remaining(&keys);
        for k in it: keys
            invariant
                all == it.seq(),
                out@ == it.seq().take(it.index() as int).map_values(|x: &u32| *x),
        {
            out.push(*k);
        }
        proof {
            assert(out@ == all.map_values(|x: &u32| *x));
            assert(all == vstd::std_specs::iter::IteratorSpec::remaining(
                &vstd::std_specs::btree::spec_keys_iter(&self.inner),
            ));
            lemma_keys_increasing(&self.inner, all);
            assert(out@ =~= all.unref());
        }
        out
    }

    /// The number of queued items and the limit.
    pub fn count(&self) -> (r: (u32, Option<u32>))
        requires
            self.wf(),
        ensures
            r == (self.queued().len() as u32, self.max_queued()),
    {
        (self.len(), self.limit)
    }
}

} // verus!
