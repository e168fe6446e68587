//! An incremental buffer extension implementation.
//!
//! An [`Incremental`] appends sizes taken from a sequence to a vector, where each call may only
//! add a bounded total: a size that does not fit is added partially, and continued by later calls.
use vstd::prelude::*;

pub mod partial;

pub use partial::{IncrementalIterator, Partial};

verus! {

/// The sum of a sequence of sizes.
pub open spec fn seq_sum(s: Seq<usize>) -> int
    decreases s.len(),
{
    if s.len() == 0 {
        0
    } else {
        seq_sum(s.drop_last()) + s.last()
    }
}

/// The sizes appended so far when `pos` sizes have been started and `partial` of the last one is
/// still owed: every started size in order, the last reduced by what is still owed.
pub open spec fn laid_out(items: Seq<usize>, pos: nat, partial: nat) -> Seq<usize> {
    if pos == 0 {
        Seq::empty()
    } else {
        items.take(pos as int).update(pos - 1, (items[pos - 1] - partial) as usize)
    }
}

/// The state `(pos, partial, remaining)` reached by extending with at most `remaining` in total and
/// starting at most `steps` new sizes (no bound when `steps` is `None`).
///
/// Sizes are taken greedily: first what is still owed of the last size, then new sizes in order,
/// stopping as soon as the bound is reached, the step budget is spent (and nothing is owed), or the
/// sizes run out.
pub open spec fn extend_state(
    items: Seq<usize>,
    pos: nat,
    partial: nat,
    remaining: nat,
    steps: Option<nat>,
) -> (nat, nat, nat)
    decreases items.len() - pos, remaining,
{
    if remaining == 0 {
        (pos, partial, 0)
    } else if steps == Some(0nat) && partial == 0 {
        (pos, partial, remaining)
    } else if partial > 0 {
        if partial > remaining {
            (pos, (partial - remaining) as nat, 0)
        } else {
            extend_state(items, pos, 0, (remaining - partial) as nat, steps)
        }
    } else if pos < items.len() {
        let item = items[pos as int] as nat;
        let next_steps = match steps {
            Some(k) => Some((k - 1) as nat),
            None => None,
        };
        if item > remaining {
            (pos + 1, (item - remaining) as nat, 0)
        } else {
            extend_state(items, pos + 1, 0, (remaining - item) as nat, next_steps)
        }
    } else {
        (pos, partial, remaining)
    }
}

/// The amount that may be added when at most `steps` new sizes may be started (no bound when
/// `None`): what is still owed plus the next sizes.
pub open spec fn available(items: Seq<usize>, pos: nat, partial: nat, steps: Option<nat>) -> int {
    let end = match steps {
        Some(k) => if pos + k <= items.len() { (pos + k) as int } else { items.len() as int },
        None => items.len() as int,
    };
    partial + seq_sum(items.subrange(pos as int, end))
}

/// The smaller of two integers.
pub open spec fn min_int(a: int, b: int) -> int {
    if a < b {
        a
    } else {
        b
    }
}

/// The sum of a concatenation is the sum of the sums.
pub proof fn lemma_seq_sum_concat(a: Seq<usize>, b: Seq<usize>)
    ensures
        seq_sum(a + b) == seq_sum(a) + seq_sum(b),
    decreases b.len(),
{
    if b.len() == 0 {
        assert(a + b =~= a);
    } else {
        lemma_seq_sum_concat(a, b.drop_last());
        assert((a + b).drop_last() =~= a + b.drop_last());
    }
}

/// A sum of sizes is never negative.
pub proof fn lemma_seq_sum_nonneg(s: Seq<usize>)
    ensures
        seq_sum(s) >= 0,
    decreases s.len(),
{
    if s.len() > 0 {
        lemma_seq_sum_nonneg(s.drop_last());
    }
}

/// Splitting off the first element of a range of sizes.
pub proof fn lemma_seq_sum_first(s: Seq<usize>, i: int, j: int)
    requires
        0 <= i < j <= s.len(),
    ensures
        seq_sum(s.subrange(i, j)) == s[i] + seq_sum(s.subrange(i + 1, j)),
{
    lemma_seq_sum_concat(seq![s[i]], s.subrange(i + 1, j));
    assert(seq![s[i]] + s.subrange(i + 1, j) =~= s.subrange(i, j));
    assert(seq![s[i]].drop_last() =~= Seq::<usize>::empty());
    assert(seq_sum(seq![s[i]]) == s[i]) by {
        reveal_with_fuel(seq_sum, 2);
    }
}

/// The total appended for a state: everything started, less what is still owed.
pub proof fn lemma_laid_out_sum(items: Seq<usize>, pos: nat, partial: nat)
    requires
        pos <= items.len(),
        partial > 0 ==> pos > 0 && partial <= items[pos - 1],
    ensures
        seq_sum(laid_out(items, pos, partial)) == seq_sum(items.take(pos as int)) - partial,
{
    if pos > 0 {
        let l = laid_out(items, pos, partial);
        assert(l.drop_last() =~= items.take(pos as int).drop_last());
        assert(items.take(pos as int).drop_last() =~= items.take(pos - 1));
    }
}

/// Extending adds exactly the smaller of the bound and what is available, and moves the state
/// forward by that amount.
pub proof fn lemma_extend_amount(
    items: Seq<usize>,
    pos: nat,
    partial: nat,
    remaining: nat,
    steps: Option<nat>,
)
    requires
        pos <= items.len(),
        partial > 0 ==> pos > 0 && partial <= items[pos - 1],
    ensures
        ({
            let (p, q, rem) = extend_state(items, pos, partial, remaining, steps);
            let avail = available(items, pos, partial, steps);
            &&& rem <= remaining
            &&& remaining - rem == if avail < remaining { avail } else { remaining as int }
            &&& pos <= p <= items.len()
            &&& q > 0 ==> p > 0 && q <= items[p - 1]
            &&& (seq_sum(items.take(p as int)) - q) - (seq_sum(items.take(pos as int)) - partial)
                == remaining - rem
        }),
    decreases items.len() - pos, remaining,
{
    let end = match steps {
        Some(k) => if pos + k <= items.len() { (pos + k) as int } else { items.len() as int },
        None => items.len() as int,
    };
    lemma_seq_sum_nonneg(items.subrange(pos as int, end));
    if remaining == 0 {
    } else if steps == Some(0nat) && partial == 0 {
        assert(items.subrange(pos as int, end) =~= Seq::<usize>::empty());
    } else if partial > 0 {
        if partial > remaining {
        } else {
            lemma_extend_amount(items, pos, 0, (remaining - partial) as nat, steps);
        }
    } else if pos < items.len() {
        let item = items[pos as int] as nat;
        let next_steps = match steps {
            Some(k) => Some((k - 1) as nat),
            None => None,
        };
        lemma_seq_sum_first(items, pos as int, end);
        lemma_seq_sum_nonneg(items.subrange((pos + 1) as int, end));
        assert(items.take((pos + 1) as int).drop_last() =~= items.take(pos as int));
        if item > remaining {
        } else {
            lemma_extend_amount(items, pos + 1, 0, (remaining - item) as nat, next_steps);
            let end2 = match next_steps {
                Some(k) => if pos + 1 + k <= items.len() { (pos + 1 + k) as int } else { items.len() as int },
                None => items.len() as int,
            };
            assert(end2 == end);
        }
    } else {
        assert(items.subrange(pos as int, end) =~= Seq::<usize>::empty());
    }
}

/// Draining: extending with no bound on the steps, from a state that owes nothing, by more than
/// the remaining sizes add up to starts every remaining size, owes nothing, and leaves what the
/// sizes did not use of the bound. Every size is then laid out whole, so an extension from the
/// start appends exactly the sizes.
pub proof fn lemma_drain(items: Seq<usize>, pos: nat, remaining: nat)
    requires
        pos <= items.len(),
        seq_sum(items.subrange(pos as int, items.len() as int)) < remaining,
    ensures
        extend_state(items, pos, 0, remaining, None) == (
            items.len(),
            0nat,
            (remaining - seq_sum(items.subrange(pos as int, items.len() as int))) as nat,
        ),
        laid_out(items, items.len(), 0) == items,
    decreases items.len() - pos,
{
    let n = items.len() as int;
    if pos < items.len() {
        lemma_seq_sum_first(items, pos as int, n);
        lemma_seq_sum_nonneg(items.subrange(pos + 1int, n));
        lemma_drain(items, pos + 1, (remaining - items[pos as int]) as nat);
    } else {
        assert(items.subrange(pos as int, n) =~= Seq::<usize>::empty());
    }
    if items.len() > 0 {
        assert(laid_out(items, items.len(), 0) =~= items);
    } else {
        assert(laid_out(items, items.len(), 0) =~= items);
    }
}

/// The `(pos, partial)` state reached from `st` by one extension with the given bound.
pub open spec fn ext(items: Seq<usize>, st: (nat, nat), limit: int, steps: Option<nat>) -> (nat, nat) {
    let (p, q, _) = extend_state(items, st.0, st.1, limit as nat, steps);
    (p, q)
}

/// The amount added by one extension from `st` with the given bound.
pub open spec fn amt(items: Seq<usize>, st: (nat, nat), limit: int, steps: Option<nat>) -> int {
    min_int(available(items, st.0, st.1, steps), limit)
}

/// A collection to which sizes are appended, and whose last appended size may grow.
pub trait OrderedCollection {
    /// The contents of the collection.
    spec fn contents(&self) -> Seq<usize>;

    /// Append an item to the collection.
    fn append(&mut self, item: usize)
        ensures
            final(self).contents() == old(self).contents().push(item),
    ;

    /// Add `amount` to the last element in the collection.
    fn add_to_last(&mut self, amount: usize)
        requires
            old(self).contents().len() > 0,
            old(self).contents().last() + amount <= usize::MAX,
        ensures
            final(self).contents() == old(self).contents().update(
                old(self).contents().len() - 1,
                (old(self).contents().last() + amount) as usize,
            ),
    ;
}

impl OrderedCollection for Vec<usize> {
    open spec fn contents(&self) -> Seq<usize> {
        self@
    }

    fn append(&mut self, item: usize) {
        self.push(item);
    }

    fn add_to_last(&mut self, amount: usize) {
        let n = self.len() - 1;
        let v = self[n] + amount;
        self.set(n, v);
    }
}

/// Extension of an internal collection by a bounded total.
pub trait ExtendIncremental {
    /// The invariant that extension requires and keeps.
    spec fn ext_inv(&self) -> bool;

    /// Extend the internal collection, ensuring not to add more than `limit_size` to the buffer in
    /// total, and not to start more than `limit_steps` new elements.
    ///
    /// Returns the total of the elements added to the buffer.
    fn extend_bounded(&mut self, limit_size: u16, limit_steps: usize) -> (r: u16)
        requires
            old(self).ext_inv(),
        ensures
            final(self).ext_inv(),
            r <= limit_size,
    ;

    /// Extend the internal collection, ensuring not to add more than `limit_size` to the buffer in
    /// total.
    ///
    /// Returns the total of the elements added to the buffer.
    fn extend_unbounded(&mut self, limit_size: u16) -> (r: u16)
        requires
            old(self).ext_inv(),
        ensures
            final(self).ext_inv(),
            r <= limit_size,
    ;
}

/// Incremental collection of a sequence of sizes into a vector.
pub struct Incremental {
    /// The vector the sizes are appended to.
    vec: Vec<usize>,
    /// The sizes still to be appended.
    sizes: IncrementalIterator,
    /// The length of `vec` before anything was appended.
    base: Ghost<nat>,
}

impl Incremental {
    /// The sizes this extension draws from.
    pub closed spec fn items(&self) -> Seq<usize> {
        self.sizes.items()
    }

    /// How many sizes have been started.
    pub closed spec fn pos(&self) -> nat {
        self.sizes.pos()
    }

    /// How much of the last started size is still owed.
    pub closed spec fn partial(&self) -> nat {
        self.sizes.partial()
    }

    /// The `(pos, partial)` state of the extension.
    pub open spec fn state(&self) -> (nat, nat) {
        (self.pos(), self.partial())
    }

    /// The total appended by this extension.
    pub open spec fn total(&self) -> int {
        seq_sum(self.filled())
    }

    /// Whether `next` extends the same vector from the same sizes as `self`.
    pub open spec fn same_source(&self, next: &Self) -> bool {
        &&& next.items() == self.items()
        &&& next.initial() == self.initial()
    }

    /// The whole vector, including what it held before the extension started.
    pub closed spec fn buffer(&self) -> Seq<usize> {
        self.vec@
    }

    /// The elements appended by this extension.
    pub closed spec fn filled(&self) -> Seq<usize> {
        self.vec@.skip(self.base@ as int)
    }

    /// What the vector held before the extension started.
    pub closed spec fn initial(&self) -> Seq<usize> {
        self.vec@.take(self.base@ as int)
    }

    /// The internal invariant: the appended elements are the started sizes, the last one reduced
    /// by what is still owed.
    pub closed spec fn wf(&self) -> bool {
        &&& self.sizes.wf()
        &&& self.base@ <= self.vec@.len()
        &&& self.vec@.skip(self.base@ as int) == laid_out(
            self.sizes.items(),
            self.sizes.pos(),
            self.sizes.partial(),
        )
    }

    /// The vector is what it held before, followed by what was appended, which is the started
    /// sizes with the last reduced by what is still owed.
    pub proof fn lemma_contents(&self)
        requires
            self.wf(),
        ensures
            self.buffer() == self.initial() + self.filled(),
            self.filled() == laid_out(self.items(), self.pos(), self.partial()),
            self.pos() <= self.items().len(),
    {
        self.sizes.lemma_wf_bounds();
        assert(self.vec@ =~= self.vec@.take(self.base@ as int) + self.vec@.skip(self.base@ as int));
    }

    /// Initialize an [`Incremental`] targeting the given vector with the provided sizes.
    ///
    /// New elements will be appended to the vector.
    pub fn new(vec: Vec<usize>, sizes: Vec<usize>) -> (r: Self)
        ensures
            r.wf(),
            r.items() == sizes@,
            r.pos() == 0,
            r.partial() == 0,
            r.initial() == vec@,
            r.filled() == Seq::<usize>::empty(),
            r.buffer() == vec@,
    {
        let ghost base = vec@.len();
        let r = Self { vec, sizes: IncrementalIterator::new(sizes), base: Ghost(base) };
        assert(r.vec@.skip(base as int) =~= Seq::<usize>::empty());
        assert(r.vec@.take(base as int) =~= r.vec@);
        r
    }

    /// The current contents of the vector.
    pub fn view(&self) -> (r: &[usize])
        ensures
            r@ == self.buffer(),
    {
        self.vec.as_slice()
    }

    /// Consume the extension, returning the vector.
    pub fn into_vec(self) -> (r: Vec<usize>)
        ensures
            r@ == self.buffer(),
    {
        self.vec
    }

    /// Extend by at most `limit_size`, starting at most `limit_steps` new sizes (no bound when
    /// `None`), and return the amount added.
    pub fn extend_impl(&mut self, limit_size: u16, limit_steps: Option<usize>) -> (r: u16)
        requires
            old(self).wf(),
        ensures
            final(self).wf(),
            final(self).items() == old(self).items(),
            final(self).initial() == old(self).initial(),
            ({
                let steps = match limit_steps {
                    Some(k) => Some(k as nat),
                    None => None,
                };
                let (p, q, rem) = extend_state(
                    old(self).items(),
                    old(self).pos(),
                    old(self).partial(),
                    limit_size as nat,
                    steps,
                );
                &&& final(self).pos() == p
                &&& final(self).partial() == q
                &&& r == limit_size - rem
                &&& r == if available(old(self).items(), old(self).pos(), old(self).partial(), steps)
                    < limit_size {
                    available(old(self).items(), old(self).pos(), old(self).partial(), steps)
                } else {
                    limit_size as int
                }
            }),
            seq_sum(final(self).filled()) == seq_sum(old(self).filled()) + r,
    {
        let ghost steps = match limit_steps {
            Some(k) => Some(k as nat),
            None => None,
        };
        proof {
            self.sizes.lemma_wf_bounds();
            lemma_extend_amount(self.items(), self.pos(), self.partial(), limit_size as nat, steps);
            lemma_laid_out_sum(self.items(), self.pos(), self.partial());
        }
        let remaining = self.extend_impl_inverted(limit_size, limit_steps);
        proof {
            self.sizes.lemma_wf_bounds();
            lemma_laid_out_sum(self.items(), self.pos(), self.partial());
        }
        limit_size - remaining
    }

    /// Extend by at most `remaining`, returning what is left of the bound.
    fn extend_impl_inverted(&mut self, bound: u16, limit_steps: Option<usize>) -> (r: u16)
        requires
            old(self).wf(),
        ensures
            final(self).wf(),
            final(self).items() == old(self).items(),
            final(self).initial() == old(self).initial(),
            r <= bound,
            ({
                let steps = match limit_steps {
                    Some(k) => Some(k as nat),
                    None => None,
                };
                let (p, q, rem) = extend_state(
                    old(self).items(),
                    old(self).pos(),
                    old(self).partial(),
                    bound as nat,
                    steps,
                );
                &&& final(self).pos() == p
                &&& final(self).partial() == q
                &&& r == rem
            }),
    {
        let ghost steps0 = match limit_steps {
            Some(k) => Some(k as nat),
            None => None,
        };
        let ghost target = extend_state(
            self.items(),
            self.pos(),
            self.partial(),
            bound as nat,
            steps0,
        );
        let ghost items = self.items();
        let ghost init = self.initial();
        let ghost rem0 = bound;
        let mut remaining = bound;
        let mut steps_left = limit_steps;
        while remaining > 0
            invariant_except_break
                self.wf(),
                self.items() == items,
                self.initial() == init,
                remaining <= rem0,
                rem0 == bound,
                items == old(self).items(),
                init == old(self).initial(),
                extend_state(
                    items,
                    self.pos(),
                    self.partial(),
                    remaining as nat,
                    match steps_left {
                        Some(k) => Some(k as nat),
                        None => None,
                    },
                ) == target,
                steps0 == match limit_steps {
                    Some(k) => Some(k as nat),
                    None => None,
                },
                target == extend_state(
                    old(self).items(),
                    old(self).pos(),
                    old(self).partial(),
                    bound as nat,
                    steps0,
                ),
            ensures
                self.wf(),
                self.items() == items,
                self.initial() == init,
                items == old(self).items(),
                init == old(self).initial(),
                remaining <= rem0,
                rem0 == bound,
                target == (self.pos(), self.partial(), remaining as nat),
                steps0 == match limit_steps {
                    Some(k) => Some(k as nat),
                    None => None,
                },
                target == extend_state(
                    old(self).items(),
                    old(self).pos(),
                    old(self).partial(),
                    bound as nat,
                    steps0,
                ),
            decreases items.len() - self.pos(), remaining,
        {
            proof {
                reveal_with_fuel(extend_state, 2);
            }
            let finished = match steps_left {
                Some(k) => k == 0,
                None => false,
            };
            if finished && !self.sizes.is_incomplete() {
                return remaining;
            }
            let ghost old_vec = self.vec@;
            let ghost old_pos = self.pos();
            let ghost old_partial = self.partial();
            let ghost base = self.base@;
            proof {
                self.sizes.lemma_wf_bounds();
            }
            match self.sizes.next_partial(remaining) {
                Some(Partial { new, size }) => {
                    assert(size <= remaining);
                    remaining = remaining - size;
                    if new {
                        steps_left = match steps_left {
                            Some(k) => Some(k - 1),
                            None => None,
                        };
                        OrderedCollection::append(&mut self.vec, size as usize);
                        proof {
                            let lo = laid_out(items, old_pos, 0);
                            let ln = laid_out(items, old_pos + 1, self.partial());
                            assert(ln =~= lo.push(size as usize));
                            assert(self.vec@.skip(base as int) =~= old_vec.skip(base as int).push(
                                size as usize,
                            ));
                            assert(self.vec@.take(base as int) =~= old_vec.take(base as int));
                        }
                    } else {
                        let ghost lo = laid_out(items, old_pos, old_partial);
                        proof {
                            assert(old_vec.skip(base as int) == lo);
                            assert(old_vec.skip(base as int).len() == old_vec.len() - base);
                            assert(lo.len() == old_pos);
                            assert(old_vec.len() == base + old_pos);
                            assert(old_vec.last() == lo.last());
                            assert(lo.last() == items[old_pos - 1] - old_partial);
                        }
                        OrderedCollection::add_to_last(&mut self.vec, size as usize);
                        proof {
                            let ln = laid_out(items, old_pos, self.partial());
                            assert(ln =~= lo.update(old_pos - 1, (lo.last() + size) as usize));
                            assert(self.vec@.skip(base as int) =~= old_vec.skip(base as int).update(
                                old_pos - 1,
                                (lo.last() + size) as usize,
                            ));
                            assert(self.vec@.take(base as int) =~= old_vec.take(base as int));
                        }
                    }
                },
                None => {
                    return remaining;
                },
            }
        }
        remaining
    }
}

impl ExtendIncremental for Incremental {
    open spec fn ext_inv(&self) -> bool {
        self.wf()
    }

    fn extend_bounded(&mut self, limit_size: u16, limit_steps: usize) -> (r: u16)
        ensures
            final(self).items() == old(self).items(),
            final(self).initial() == old(self).initial(),
            ({
                let (p, q, rem) = extend_state(
                    old(self).items(),
                    old(self).pos(),
                    old(self).partial(),
                    limit_size as nat,
                    Some(limit_steps as nat),
                );
                &&& final(self).pos() == p
                &&& final(self).partial() == q
                &&& r == limit_size - rem
            }),
            r == min_int(
                available(old(self).items(), old(self).pos(), old(self).partial(), Some(limit_steps as nat)),
                limit_size as int,
            ),
            seq_sum(final(self).filled()) == seq_sum(old(self).filled()) + r,
    {
        self.extend_impl(limit_size, Some(limit_steps))
    }

    fn extend_unbounded(&mut self, limit_size: u16) -> (r: u16)
        ensures
            final(self).items() == old(self).items(),
            final(self).initial() == old(self).initial(),
            ({
                let (p, q, rem) = extend_state(
                    old(self).items(),
                    old(self).pos(),
                    old(self).partial(),
                    limit_size as nat,
                    None,
                );
                &&& final(self).pos() == p
                &&& final(self).partial() == q
                &&& r == limit_size - rem
            }),
            r == min_int(
                available(old(self).items(), old(self).pos(), old(self).partial(), None),
                limit_size as int,
            ),
            seq_sum(final(self).filled()) == seq_sum(old(self).filled()) + r,
            old(self).partial() == 0 && seq_sum(old(self).items().skip(old(self).pos() as int))
                < limit_size ==> {
                let rest = old(self).items().skip(old(self).pos() as int);
                &&& final(self).filled() == old(self).filled() + rest
                &&& final(self).buffer() == old(self).buffer() + rest
                &&& r == seq_sum(rest)
            },
    {
        proof {
            self.lemma_contents();
            let items = self.items();
            let pos = self.pos();
            let rest = items.skip(pos as int);
            if self.partial() == 0 && seq_sum(rest) < limit_size {
                assert(items.subrange(pos as int, items.len() as int) =~= rest);
                lemma_drain(items, pos, limit_size as nat);
            }
        }
        let ghost old_self = *self;
        let r = self.extend_impl(limit_size, None);
        proof {
            self.lemma_contents();
            let items = old_self.items();
            let pos = old_self.pos();
            let rest = items.skip(pos as int);
            if old_self.partial() == 0 && seq_sum(rest) < limit_size {
                assert(items.subrange(pos as int, items.len() as int) =~= rest);
                lemma_drain(items, pos, limit_size as nat);
                if pos > 0 {
                    assert(old_self.filled() =~= items.take(pos as int));
                } else {
                    assert(old_self.filled() =~= items.take(pos as int));
                }
                assert(items.take(pos as int) + rest =~= items);
                assert(old_self.buffer() == old_self.initial() + old_self.filled());
                assert(self.buffer() =~= old_self.buffer() + rest);
            }
        }
        r
    }
}

} // verus!
