use vstd::multiset::Multiset;
use crate::source::{
    derivation_items, derivation_stalls, Derivation, Derive, Pull, Resolution, Sequence, Source,
};
use vstd::prelude::*;

verus! {

broadcast use vstd::multiset::group_multiset_axioms;

/// `idx` is strictly ascending and every entry is a position below `len`.
pub open spec fn valid_indexes(idx: Seq<usize>, len: nat) -> bool {
    &&& forall|k: int| 0 <= k < idx.len() ==> idx[k] < len
    &&& forall|j: int, k: int| 0 <= j < k < idx.len() ==> idx[j] < idx[k]
}

/// `s` without the elements at the positions in `idx`, removed from the
/// highest position down.
pub open spec fn without<A>(s: Seq<A>, idx: Seq<usize>) -> Seq<A>
    decreases idx.len(),
{
    if idx.len() == 0 {
        s
    } else {
        without(s.remove(idx.last() as int), idx.drop_last())
    }
}

/// The multisets `f(a)` of the elements `a` of `xs`, added up.
pub open spec fn bag_sum<A, T>(xs: Seq<A>, f: spec_fn(A) -> Multiset<T>) -> Multiset<T>
    decreases xs.len(),
{
    if xs.len() == 0 {
        Multiset::empty()
    } else {
        bag_sum(xs.drop_last(), f).add(f(xs.last()))
    }
}

/// The numbers `f(a)` of the elements `a` of `xs`, added up.
pub open spec fn nat_sum<A>(xs: Seq<A>, f: spec_fn(A) -> nat) -> nat
    decreases xs.len(),
{
    if xs.len() == 0 {
        0
    } else {
        nat_sum(xs.drop_last(), f) + f(xs.last())
    }
}

pub proof fn lemma_without_len<A>(s: Seq<A>, idx: Seq<usize>)
    requires
        valid_indexes(idx, s.len()),
    ensures
        without(s, idx).len() == s.len() - idx.len(),
    decreases idx.len(),
{
    if idx.len() > 0 {
        let s2 = s.remove(idx.last() as int);
        let idx2 = idx.drop_last();
        assert(valid_indexes(idx2, s2.len())) by {
            assert forall|k: int| 0 <= k < idx2.len() implies idx2[k] < s2.len() by {
                assert(idx[k] < idx[idx.len() - 1]);
            }
        }
        lemma_without_len(s2, idx2);
    }
}

pub proof fn lemma_bag_sum_push<A, T>(xs: Seq<A>, a: A, f: spec_fn(A) -> Multiset<T>)
    ensures
        bag_sum(xs.push(a), f) == bag_sum(xs, f).add(f(a)),
{
    assert(xs.push(a).drop_last() =~= xs);
}

pub proof fn lemma_nat_sum_push<A>(xs: Seq<A>, a: A, f: spec_fn(A) -> nat)
    ensures
        nat_sum(xs.push(a), f) == nat_sum(xs, f) + f(a),
{
    assert(xs.push(a).drop_last() =~= xs);
}

pub proof fn lemma_bag_sum_update<A, T>(xs: Seq<A>, i: int, a: A, f: spec_fn(A) -> Multiset<T>)
    requires
        0 <= i < xs.len(),
    ensures
        bag_sum(xs.update(i, a), f).add(f(xs[i])) == bag_sum(xs, f).add(f(a)),
    decreases xs.len(),
{
    let ys = xs.update(i, a);
    assert(bag_sum(ys, f) == bag_sum(ys.drop_last(), f).add(f(ys.last())));
    assert(bag_sum(xs, f) == bag_sum(xs.drop_last(), f).add(f(xs.last())));
    if i == xs.len() - 1 {
        assert(ys.drop_last() =~= xs.drop_last());
        assert(ys.last() == a);
        assert(xs.last() == xs[i]);
        let b = bag_sum(xs.drop_last(), f);
        assert(b.add(f(a)).add(f(xs[i])) =~= b.add(f(xs[i])).add(f(a)));
    } else {
        assert(ys.drop_last() =~= xs.drop_last().update(i, a));
        assert(ys.last() == xs.last());
        assert(xs.drop_last()[i] == xs[i]);
        lemma_bag_sum_update(xs.drop_last(), i, a, f);
        let b = bag_sum(xs.drop_last(), f);
        let c = bag_sum(ys.drop_last(), f);
        assert(c.add(f(xs[i])) == b.add(f(a)));
        assert(c.add(f(xs.last())).add(f(xs[i])) =~= c.add(f(xs[i])).add(f(xs.last())));
        assert(b.add(f(a)).add(f(xs.last())) =~= b.add(f(xs.last())).add(f(a)));
    }
    assert(bag_sum(ys, f).add(f(xs[i])) =~= bag_sum(xs, f).add(f(a)));
}

pub proof fn lemma_nat_sum_update<A>(xs: Seq<A>, i: int, a: A, f: spec_fn(A) -> nat)
    requires
        0 <= i < xs.len(),
    ensures
        nat_sum(xs.update(i, a), f) + f(xs[i]) == nat_sum(xs, f) + f(a),
    decreases xs.len(),
{
    let ys = xs.update(i, a);
    if i == xs.len() - 1 {
        assert(ys.drop_last() =~= xs.drop_last());
    } else {
        assert(ys.drop_last() =~= xs.drop_last().update(i, a));
        assert(xs.drop_last()[i] == xs[i]);
        lemma_nat_sum_update(xs.drop_last(), i, a, f);
    }
}

pub proof fn lemma_bag_sum_remove<A, T>(xs: Seq<A>, i: int, f: spec_fn(A) -> Multiset<T>)
    requires
        0 <= i < xs.len(),
    ensures
        bag_sum(xs.remove(i), f).add(f(xs[i])) == bag_sum(xs, f),
    decreases xs.len(),
{
    let ys = xs.remove(i);
    if i == xs.len() - 1 {
        assert(ys =~= xs.drop_last());
    } else {
        assert(ys.drop_last() =~= xs.drop_last().remove(i));
        assert(ys.last() == xs.last());
        lemma_bag_sum_remove(xs.drop_last(), i, f);
    }
    assert(bag_sum(ys, f).add(f(xs[i])) =~= bag_sum(xs, f));
}

pub proof fn lemma_nat_sum_remove<A>(xs: Seq<A>, i: int, f: spec_fn(A) -> nat)
    requires
        0 <= i < xs.len(),
    ensures
        nat_sum(xs.remove(i), f) + f(xs[i]) == nat_sum(xs, f),
    decreases xs.len(),
{
    let ys = xs.remove(i);
    if i == xs.len() - 1 {
        assert(ys =~= xs.drop_last());
    } else {
        assert(ys.drop_last() =~= xs.drop_last().remove(i));
        assert(ys.last() == xs.last());
        lemma_nat_sum_remove(xs.drop_last(), i, f);
    }
}

/// Removing elements that contribute nothing keeps a sum of multisets.
pub proof fn lemma_bag_sum_without<A, T>(xs: Seq<A>, idx: Seq<usize>, f: spec_fn(A) -> Multiset<T>)
    requires
        valid_indexes(idx, xs.len()),
        forall|k: int| 0 <= k < idx.len() ==> f(#[trigger] xs[idx[k] as int]) == Multiset::<T>::empty(),
    ensures
        bag_sum(without(xs, idx), f) == bag_sum(xs, f),
    decreases idx.len(),
{
    if idx.len() > 0 {
        let i = idx.last() as int;
        let ys = xs.remove(i);
        let idx2 = idx.drop_last();
        lemma_bag_sum_remove(xs, i, f);
        assert(f(xs[idx[idx.len() - 1] as int]) == Multiset::<T>::empty());
        assert(bag_sum(ys, f) =~= bag_sum(xs, f));
        assert forall|k: int| 0 <= k < idx2.len() implies f(#[trigger] ys[idx2[k] as int])
            == Multiset::<T>::empty() by {
            assert(idx[k] < idx[idx.len() - 1]);
            assert(ys[idx2[k] as int] == xs[idx[k] as int]);
        }
        assert forall|k: int| 0 <= k < idx2.len() implies idx2[k] < ys.len() by {
            assert(idx[k] < idx[idx.len() - 1]);
        }
        lemma_bag_sum_without(ys, idx2, f);
    }
}

/// Removing elements never raises a sum of numbers.
pub proof fn lemma_nat_sum_without<A>(xs: Seq<A>, idx: Seq<usize>, f: spec_fn(A) -> nat)
    requires
        valid_indexes(idx, xs.len()),
    ensures
        nat_sum(without(xs, idx), f) <= nat_sum(xs, f),
    decreases idx.len(),
{
    if idx.len() > 0 {
        let i = idx.last() as int;
        let ys = xs.remove(i);
        let idx2 = idx.drop_last();
        lemma_nat_sum_remove(xs, i, f);
        assert forall|k: int| 0 <= k < idx2.len() implies idx2[k] < ys.len() by {
            assert(idx[k] < idx[idx.len() - 1]);
        }
        lemma_nat_sum_without(ys, idx2, f);
    }
}

/// Removes the elements at `indexes`, which are valid positions in ascending
/// order, from the highest position down so that no removal shifts a position
/// still to be removed.
pub fn clean_vec<A>(vec: &mut Vec<A>, indexes: Vec<usize>)
    requires
        valid_indexes(indexes@, old(vec)@.len()),
    ensures
        final(vec)@ == without(old(vec)@, indexes@),
        final(vec)@.len() == old(vec)@.len() - indexes@.len(),
{
    proof {
        lemma_without_len(vec@, indexes@);
        assert(indexes@.take(indexes@.len() as int) =~= indexes@);
    }
    let ghost target = without(vec@, indexes@);
    let mut k: usize = indexes.len();
    while k > 0
        invariant
            k <= indexes@.len(),
            valid_indexes(indexes@.take(k as int), vec@.len()),
            without(vec@, indexes@.take(k as int)) == target,
        decreases k,
    {
        let index = indexes[k - 1];
        proof {
            let t = indexes@.take(k as int);
            assert(t.drop_last() =~= indexes@.take(k - 1));
            assert(t.last() == index);
            assert forall|j: int| 0 <= j < k - 1 implies indexes@[j] < vec@.len() - 1 by {
                assert(t[j] < t[k - 1]);
            }
        }
        vec.remove(index);
        k = k - 1;
    }
    proof {
        assert(indexes@.take(0) =~= Seq::<usize>::empty());
    }
}

/// A fan-out merge. Each item of the primary sequence is yielded and handed to
/// `map`, which starts a derivation; a derivation ends in a secondary source or
/// in nothing, and the items of every secondary source are merged into the
/// output alongside the primary's.
pub struct SelectMap<T, S1, S2, F, M> {
    primary: S1,
    primary_done: bool,
    pending: Vec<F>,
    active: Vec<S2>,
    map: M,
    dispatched: Ghost<Seq<T>>,
}

impl<T, S1, S2, F, M> SelectMap<T, S1, S2, F, M> {
    /// The primary sequence.
    pub closed spec fn primary(&self) -> S1 {
        self.primary
    }

    /// Whether the primary sequence has reported its end.
    pub closed spec fn primary_done(&self) -> bool {
        self.primary_done
    }

    /// The derivations not resolved yet.
    pub closed spec fn pending(&self) -> Seq<F> {
        self.pending@
    }

    /// The secondary sources not exhausted yet.
    pub closed spec fn active(&self) -> Seq<S2> {
        self.active@
    }

    /// The mapping from primary items to derivations.
    pub closed spec fn map(&self) -> M {
        self.map
    }

    /// The primary items handed to the mapping so far, in order.
    pub closed spec fn dispatched(&self) -> Seq<T> {
        self.dispatched@
    }

    /// No source is left: the merge yields nothing more, ever.
    pub open spec fn terminated(&self) -> bool {
        &&& self.primary_done()
        &&& self.pending().len() == 0
        &&& self.active().len() == 0
    }

    /// Whether the merge has ended: the primary has ended, no derivation is
    /// pending and every secondary source is exhausted.
    pub fn is_terminated(&self) -> (r: bool)
        ensures
            r == self.terminated(),
    {
        self.primary_done && self.pending.len() == 0 && self.active.len() == 0
    }
}

impl<T, S1: Sequence<T>, S2: Source<T>, F: Derivation<S2>, M: Derive<T, S2, F>> SelectMap<T, S1, S2, F, M> {
    /// The items that a derivation contributes once resolved.
    pub open spec fn derived_items(f: F) -> Multiset<T> {
        derivation_items::<T, S2, F>(f)
    }

    /// A bound on the pulls that find a derivation or its source not ready.
    pub open spec fn derived_stalls(f: F) -> nat {
        derivation_stalls::<T, S2, F>(f)
    }

    pub open spec fn derived_items_fn() -> spec_fn(F) -> Multiset<T> {
        |f: F| Self::derived_items(f)
    }

    pub open spec fn derived_stalls_fn() -> spec_fn(F) -> nat {
        |f: F| Self::derived_stalls(f)
    }

    pub open spec fn source_items_fn() -> spec_fn(S2) -> Multiset<T> {
        |s: S2| s.remaining()
    }

    pub open spec fn source_stalls_fn() -> spec_fn(S2) -> nat {
        |s: S2| s.stalls()
    }

    /// Everything that the primary items `xs` bring into the output: each item
    /// itself and what its derivation contributes.
    pub open spec fn spawned_items(map: M, xs: Seq<T>) -> Multiset<T>
        decreases xs.len(),
    {
        if xs.len() == 0 {
            Multiset::empty()
        } else {
            Self::spawned_items(map, xs.drop_first()).insert(xs[0]).add(map.yields(xs[0]))
        }
    }

    pub open spec fn spawned_stalls(map: M, xs: Seq<T>) -> nat
        decreases xs.len(),
    {
        if xs.len() == 0 {
            0
        } else {
            Self::spawned_stalls(map, xs.drop_first()) + map.delays(xs[0])
        }
    }

    /// The primary items not read yet.
    pub open spec fn unread(&self) -> Seq<T> {
        if self.primary_done() {
            Seq::empty()
        } else {
            self.primary().upcoming()
        }
    }

    /// Every item that the merge still yields.
    pub open spec fn content(&self) -> Multiset<T> {
        Self::spawned_items(self.map(), self.unread()).add(
            bag_sum(self.pending(), Self::derived_items_fn()),
        ).add(bag_sum(self.active(), Self::source_items_fn()))
    }

    /// A bound on how many more pulls of the merge may find nothing ready.
    pub open spec fn stall_bound(&self) -> nat {
        (if self.primary_done() {
            0
        } else {
            self.primary().stalls()
        }) + Self::spawned_stalls(self.map(), self.unread()) + nat_sum(
            self.pending(),
            Self::derived_stalls_fn(),
        ) + nat_sum(self.active(), Self::source_stalls_fn())
    }

    /// The items that the derivations of the primary items `xs` contribute.
    pub open spec fn derived_total(map: M, xs: Seq<T>) -> Multiset<T>
        decreases xs.len(),
    {
        if xs.len() == 0 {
            Multiset::empty()
        } else {
            map.yields(xs[0]).add(Self::derived_total(map, xs.drop_first()))
        }
    }

    /// Completeness: the items that a merge over the primary items `xs` yields
    /// are those items themselves together with everything their derivations
    /// contribute.
    pub proof fn lemma_completeness(map: M, xs: Seq<T>)
        ensures
            Self::spawned_items(map, xs) == xs.to_multiset().add(Self::derived_total(map, xs)),
        decreases xs.len(),
    {
        if xs.len() == 0 {
            vstd::seq_lib::to_multiset_len(xs);
            vstd::multiset::lemma_multiset_empty_len(xs.to_multiset());
            assert(Self::spawned_items(map, xs) =~= xs.to_multiset().add(
                Self::derived_total(map, xs),
            ));
        } else {
            Self::lemma_completeness(map, xs.drop_first());
            let one = Seq::<T>::empty().push(xs[0]);
            assert(xs =~= one + xs.drop_first());
            vstd::seq_lib::lemma_multiset_commutative(one, xs.drop_first());
            vstd::seq_lib::to_multiset_build(Seq::<T>::empty(), xs[0]);
            vstd::seq_lib::to_multiset_len(Seq::<T>::empty());
            vstd::multiset::lemma_multiset_empty_len(Seq::<T>::empty().to_multiset());
            assert(Self::spawned_items(map, xs) =~= xs.to_multiset().add(
                Self::derived_total(map, xs),
            ));
        }
    }

    proof fn lemma_derived_total_append(map: M, a: Seq<T>, b: Seq<T>)
        ensures
            Self::derived_total(map, a + b) == Self::derived_total(map, a).add(
                Self::derived_total(map, b),
            ),
        decreases a.len(),
    {
        if a.len() == 0 {
            assert(a + b =~= b);
            assert(Self::derived_total(map, a + b) =~= Self::derived_total(map, a).add(
                Self::derived_total(map, b),
            ));
        } else {
            assert((a + b).drop_first() =~= a.drop_first() + b);
            Self::lemma_derived_total_append(map, a.drop_first(), b);
            assert(Self::derived_total(map, a + b) =~= Self::derived_total(map, a).add(
                Self::derived_total(map, b),
            ));
        }
    }

    /// Selective elimination: where the derivation of every primary item that
    /// `keep` rejects contributes nothing, the derivations contribute exactly
    /// what those of the kept items do.
    pub proof fn lemma_selective_elimination(map: M, xs: Seq<T>, keep: spec_fn(T) -> bool)
        requires
            forall|i: int|
                0 <= i < xs.len() && !keep(xs[i]) ==> #[trigger] map.yields(xs[i])
                    == Multiset::<T>::empty(),
        ensures
            Self::derived_total(map, xs) == Self::derived_total(map, xs.filter(keep)),
        decreases xs.len(),
    {
        if xs.len() > 0 {
            let init = xs.drop_last();
            let x = xs.last();
            let one = Seq::<T>::empty().push(x);
            assert(xs =~= init + one);
            assert forall|i: int| 0 <= i < init.len() && !keep(init[i]) implies #[trigger] map.yields(
                init[i],
            ) == Multiset::<T>::empty() by {
                assert(init[i] == xs[i]);
            }
            Self::lemma_selective_elimination(map, init, keep);
            Self::lemma_derived_total_append(map, init, one);
            assert(one.drop_first() =~= Seq::<T>::empty());
            assert(Self::derived_total(map, Seq::<T>::empty()) == Multiset::<T>::empty());
            assert(one[0] == x);
            assert(Self::derived_total(map, one) =~= map.yields(x));
            let kept = init.filter(keep);
            assert(xs =~= init.push(x));
            init.lemma_filter_push(x, keep);
            assert(xs.filter(keep) == if keep(x) {
                kept.push(x)
            } else {
                kept
            });
            if keep(x) {
                assert(kept.push(x) =~= kept + one);
                Self::lemma_derived_total_append(map, kept, one);
            } else {
                assert(map.yields(xs[xs.len() - 1]) == Multiset::<T>::empty());
                assert(Self::derived_total(map, xs) =~= Self::derived_total(map, init));
            }
        }
    }

    /// Starts a merge over `primary`. Nothing is pulled yet.
    pub fn new(primary: S1, map: M) -> (s: Self)
        ensures
            s.primary() == primary,
            s.map() == map,
            !s.primary_done(),
            s.pending().len() == 0,
            s.active().len() == 0,
            s.dispatched().len() == 0,
            s.content() == Self::spawned_items(map, primary.upcoming()),
            s.stall_bound() == primary.stalls() + Self::spawned_stalls(map, primary.upcoming()),
    {
        let minimal_primaries = primary.lower_bound();
        let s = SelectMap {
            primary,
            primary_done: false,
            pending: Vec::with_capacity(minimal_primaries),
            active: Vec::with_capacity(minimal_primaries),
            map,
            dispatched: Ghost(Seq::empty()),
        };
        proof {
            assert(s.content() =~= Self::spawned_items(map, primary.upcoming()));
        }
        s
    }

    pub open spec fn source_hint_fn() -> spec_fn(S2) -> nat {
        |s: S2| s.hint()
    }

    /// The primary's lower bound, if it has not ended, plus the lower bounds of
    /// the active secondary sources, saturating at `usize::MAX`.
    pub open spec fn hint_sum(&self) -> nat {
        let total = (if self.primary_done() {
            0
        } else {
            self.primary().hint()
        }) + nat_sum(self.active(), Self::source_hint_fn());
        if total <= usize::MAX {
            total
        } else {
            usize::MAX as nat
        }
    }

    /// A lower bound on the items still to come: the primary's bound plus the
    /// bounds of the active secondary sources. Pending derivations count for
    /// nothing, since what they yield is not known yet.
    pub fn size_hint(&self) -> (r: usize)
        ensures
            r == self.hint_sum(),
            r <= self.content().len(),
    {
        let mut total: usize = if self.primary_done {
            0
        } else {
            self.primary.lower_bound()
        };
        let ghost base: nat = total as nat;
        let mut j: usize = 0;
        while j < self.active.len()
            invariant
                j <= self.active@.len(),
                base == (if self.primary_done() {
                    0
                } else {
                    self.primary().hint()
                }),
                base <= self.unread().len(),
                total as nat == if base + nat_sum(self.active@.take(j as int), Self::source_hint_fn())
                    <= usize::MAX {
                    base + nat_sum(self.active@.take(j as int), Self::source_hint_fn())
                } else {
                    usize::MAX as nat
                },
                total <= self.unread().len() + bag_sum(
                    self.active@.take(j as int),
                    Self::source_items_fn(),
                ).len(),
            decreases self.active@.len() - j,
        {
            proof {
                let t = self.active@.take(j as int);
                assert(self.active@.take(j + 1) =~= t.push(self.active@[j as int]));
                lemma_bag_sum_push(t, self.active@[j as int], Self::source_items_fn());
                lemma_nat_sum_push(t, self.active@[j as int], Self::source_hint_fn());
            }
            total = total.saturating_add(self.active[j].lower_bound());
            j += 1;
        }
        proof {
            assert(self.active@.take(self.active@.len() as int) =~= self.active@);
            Self::lemma_spawned_len(self.map(), self.unread());
        }
        total
    }

    proof fn lemma_spawned_len(map: M, xs: Seq<T>)
        ensures
            Self::spawned_items(map, xs).len() >= xs.len(),
        decreases xs.len(),
    {
        if xs.len() > 0 {
            Self::lemma_spawned_len(map, xs.drop_first());
        }
    }

    /// Pulls until the merge has ended and returns the items in the order they
    /// came.
    pub fn collect(&mut self) -> (out: Vec<T>)
        ensures
            out@.to_multiset() == old(self).content(),
            final(self).terminated(),
            final(self).dispatched() == old(self).dispatched() + old(self).unread(),
    {
        let mut out: Vec<T> = Vec::new();
        proof {
            vstd::seq_lib::to_multiset_len(out@);
            vstd::multiset::lemma_multiset_empty_len(out@.to_multiset());
            assert(out@.to_multiset().add(self.content()) =~= self.content());
        }
        loop
            invariant
                out@.to_multiset().add(self.content()) == old(self).content(),
                self.dispatched() + self.unread() == old(self).dispatched() + old(self).unread(),
            decreases self.content().len(), self.stall_bound(),
        {
            let ghost before = self.content();
            let ghost out_before = out@;
            match self.poll_next() {
                Pull::Ready(x) => {
                    out.push(x);
                    proof {
                        assert(out@ == out_before.push(x));
                        vstd::seq_lib::to_multiset_build(out_before, x);
                        assert(out@.to_multiset().add(self.content()) =~= out_before.to_multiset().add(
                            before,
                        ));
                    }
                },
                Pull::Pending => {},
                Pull::Exhausted => {
                    proof {
                        assert(out@.to_multiset() =~= out@.to_multiset().add(self.content()));
                        assert(self.unread() =~= Seq::<T>::empty());
                        assert(old(self).dispatched() + old(self).unread() =~= self.dispatched()
                            + self.unread());
                        assert(self.dispatched() + self.unread() =~= self.dispatched());
                    }
                    return out;
                },
            }
        }
    }

    /// One scheduling step. A ready primary item is yielded at once, after its
    /// derivation has been started. Otherwise every pending derivation is polled
    /// once, and then the secondary sources in turn until one yields an item.
    /// Resolved derivations and exhausted sources leave their collections.
    pub fn poll_next(&mut self) -> (r: Pull<T>)
        ensures
            final(self).map() == old(self).map(),
            final(self).dispatched() + final(self).unread() == old(self).dispatched() + old(
                self,
            ).unread(),
            final(self).dispatched() == old(self).dispatched() || (final(self).dispatched()
                == old(self).dispatched().push(final(self).dispatched().last()) && r == Pull::Ready(
                final(self).dispatched().last(),
            )),
            old(self).primary_done() ==> final(self).primary() == old(self).primary(),
            match r {
                Pull::Ready(x) => {
                    &&& old(self).content() == final(self).content().insert(x)
                    &&& final(self).stall_bound() <= old(self).stall_bound()
                },
                Pull::Pending => {
                    &&& final(self).content() == old(self).content()
                    &&& final(self).stall_bound() < old(self).stall_bound()
                },
                Pull::Exhausted => {
                    &&& old(self).content() == Multiset::<T>::empty()
                    &&& final(self).content() == Multiset::<T>::empty()
                    &&& final(self).stall_bound() <= old(self).stall_bound()
                },
            },
            r is Exhausted <==> final(self).terminated(),
            old(self).terminated() ==> r is Exhausted,
    {
        let ghost s0: Self = *self;
        let ghost c0 = self.content();
        let ghost b0 = self.stall_bound();
        let mut all_done = true;
        if !self.primary_done {
            match self.primary.pull_next() {
                Pull::Ready(item) => {
                    let derivation = self.map.derive(&item);
                    self.pending.push(derivation);
                    self.dispatched = Ghost(self.dispatched@.push(item));
                    proof {
                        let u = s0.unread();
                        let d = self.pending@.last();
                        assert(self.pending@ == s0.pending@.push(d));
                        lemma_bag_sum_push(s0.pending@, d, Self::derived_items_fn());
                        lemma_nat_sum_push(s0.pending@, d, Self::derived_stalls_fn());
                        assert(self.unread() == u.drop_first());
                        assert(s0.content() =~= self.content().insert(item));
                        assert(self.dispatched() + self.unread() =~= s0.dispatched() + u);
                        assert(self.dispatched().last() == item);
                    }
                    return Pull::Ready(item);
                },
                Pull::Exhausted => {
                    self.primary_done = true;
                    proof {
                        assert(self.content() =~= c0);
                    }
                },
                Pull::Pending => {
                    all_done = false;
                },
            }
        }
        let ghost pstall = !all_done;
        let ghost s1: Self = *self;
        proof {
            assert(self.dispatched() + self.unread() =~= s0.dispatched() + s0.unread());
        }

        let mut resolved: Vec<usize> = Vec::new();
        let ghost mut dstall = false;
        let mut i: usize = 0;
        while i < self.pending.len()
            invariant
                i <= self.pending@.len(),
                self.pending@.len() == s1.pending@.len(),
                self.primary == s1.primary,
                self.primary_done == s1.primary_done,
                self.active@.len() >= s1.active@.len(),
                self.map == s0.map,
                s0 == *old(self),
                c0 == s0.content(),
                b0 == s0.stall_bound(),
                self.dispatched() + self.unread() == s0.dispatched() + s0.unread(),
                self.dispatched() == s0.dispatched(),
                s0.primary_done ==> self.primary == s0.primary,
                valid_indexes(resolved@, i as nat),
                resolved@.len() <= i,
                forall|k: int|
                    0 <= k < resolved@.len() ==> Self::derived_items(
                        #[trigger] self.pending@[resolved@[k] as int],
                    ) == Multiset::<T>::empty() && Self::derived_stalls(
                        self.pending@[resolved@[k] as int],
                    ) == 0,
                dstall ==> resolved@.len() < i,
                !dstall ==> resolved@.len() == i,
                all_done == !(pstall || dstall),
                pstall ==> !self.primary_done,
                !pstall ==> self.primary_done,
                self.content() == c0,
                self.stall_bound() <= b0,
                !all_done ==> self.stall_bound() < b0,
                s0.terminated() ==> self.active@ == s0.active@ && self.pending@.len() == 0,
            decreases self.pending@.len() - i,
        {
            let ghost pp = self.pending@;
            let ghost aa = self.active@;
            let ghost f = pp[i as int];
            let res = self.pending[i].resolve();
            let ghost f2 = self.pending@[i as int];
            proof {
                assert(self.pending@ == pp.update(i as int, f2));
                lemma_bag_sum_update(pp, i as int, f2, Self::derived_items_fn());
                lemma_nat_sum_update(pp, i as int, f2, Self::derived_stalls_fn());
            }
            match res {
                Resolution::Derived(stream) => {
                    resolved.push(i);
                    self.active.push(stream);
                    proof {
                        lemma_bag_sum_push(aa, stream, Self::source_items_fn());
                        lemma_nat_sum_push(aa, stream, Self::source_stalls_fn());
                    }
                },
                Resolution::Nothing => {
                    resolved.push(i);
                },
                Resolution::Pending => {
                    all_done = false;
                    proof {
                        dstall = true;
                    }
                },
            }
            proof {
                assert forall|v: T| self.content().count(v) == c0.count(v) by {
                    assert(bag_sum(self.pending@, Self::derived_items_fn()).add(
                        Self::derived_items_fn()(f),
                    ).count(v) == bag_sum(pp, Self::derived_items_fn()).add(
                        Self::derived_items_fn()(f2),
                    ).count(v));
                }
                assert(self.content() =~= c0);
            }
            i += 1;
        }
        proof {
            assert forall|k: int| 0 <= k < resolved@.len() implies (#[trigger] Self::derived_items_fn()(
                self.pending@[resolved@[k] as int],
            )) == Multiset::<T>::empty() by {}
            lemma_bag_sum_without(self.pending@, resolved@, Self::derived_items_fn());
            lemma_nat_sum_without(self.pending@, resolved@, Self::derived_stalls_fn());
        }
        let ghost n_resolved = resolved@.len();
        clean_vec(&mut self.pending, resolved);
        proof {
            assert(self.content() =~= c0);
        }

        let ghost s2: Self = *self;
        let mut exhausted: Vec<usize> = Vec::new();
        let ghost mut astall = false;
        let mut j: usize = 0;
        while j < self.active.len()
            invariant
                j <= self.active@.len(),
                self.active@.len() == s2.active@.len(),
                self.primary == s2.primary,
                self.primary_done == s2.primary_done,
                self.pending@ == s2.pending@,
                self.map == s0.map,
                s0 == *old(self),
                c0 == s0.content(),
                b0 == s0.stall_bound(),
                self.dispatched() + self.unread() == s0.dispatched() + s0.unread(),
                self.dispatched() == s0.dispatched(),
                s0.primary_done ==> self.primary == s0.primary,
                valid_indexes(exhausted@, j as nat),
                exhausted@.len() <= j,
                forall|k: int|
                    0 <= k < exhausted@.len() ==> (#[trigger] self.active@[exhausted@[k] as int]).remaining()
                        == Multiset::<T>::empty(),
                astall ==> exhausted@.len() < j,
                !astall ==> exhausted@.len() == j,
                all_done == !(pstall || dstall || astall),
                pstall ==> !self.primary_done,
                !pstall ==> self.primary_done,
                dstall ==> self.pending@.len() > 0,
                !dstall ==> self.pending@.len() == 0,
                self.content() == c0,
                self.stall_bound() <= b0,
                !all_done ==> self.stall_bound() < b0,
                s0.terminated() ==> self.active@.len() == 0,
            decreases self.active@.len() - j,
        {
            let ghost aa = self.active@;
            let res = self.active[j].pull();
            let ghost a2 = self.active@[j as int];
            proof {
                assert(self.active@ == aa.update(j as int, a2));
                lemma_bag_sum_update(aa, j as int, a2, Self::source_items_fn());
                lemma_nat_sum_update(aa, j as int, a2, Self::source_stalls_fn());
            }
            match res {
                Pull::Ready(item) => {
                    proof {
                        assert forall|v: T| bag_sum(aa, Self::source_items_fn()).count(v) == bag_sum(
                            self.active@,
                            Self::source_items_fn(),
                        ).insert(item).count(v) by {
                            assert(bag_sum(self.active@, Self::source_items_fn()).add(
                                Self::source_items_fn()(aa[j as int]),
                            ).count(v) == bag_sum(aa, Self::source_items_fn()).add(
                                Self::source_items_fn()(a2),
                            ).count(v));
                        }
                        assert(bag_sum(aa, Self::source_items_fn()) =~= bag_sum(
                            self.active@,
                            Self::source_items_fn(),
                        ).insert(item));
                        assert forall|k: int| 0 <= k < exhausted@.len() implies (
                        #[trigger] Self::source_items_fn()(self.active@[exhausted@[k] as int]))
                            == Multiset::<T>::empty() by {}
                        lemma_bag_sum_without(self.active@, exhausted@, Self::source_items_fn());
                        lemma_nat_sum_without(self.active@, exhausted@, Self::source_stalls_fn());
                    }
                    let ghost n_exhausted = exhausted@.len();
                    clean_vec(&mut self.active, exhausted);
                    proof {
                        assert(c0 =~= self.content().insert(item));
                        assert(self.dispatched() + self.unread() =~= s0.dispatched() + s0.unread());
                    }
                    return Pull::Ready(item);
                },
                Pull::Exhausted => {
                    exhausted.push(j);
                },
                Pull::Pending => {
                    all_done = false;
                    proof {
                        astall = true;
                    }
                },
            }
            proof {
                assert forall|v: T| self.content().count(v) == c0.count(v) by {
                    assert(bag_sum(self.active@, Self::source_items_fn()).add(
                        Self::source_items_fn()(aa[j as int]),
                    ).count(v) == bag_sum(aa, Self::source_items_fn()).add(
                        Self::source_items_fn()(a2),
                    ).count(v));
                }
                assert(self.content() =~= c0);
            }
            j += 1;
        }
        proof {
            assert forall|k: int| 0 <= k < exhausted@.len() implies (#[trigger] Self::source_items_fn()(
                self.active@[exhausted@[k] as int],
            )) == Multiset::<T>::empty() by {}
            lemma_bag_sum_without(self.active@, exhausted@, Self::source_items_fn());
            lemma_nat_sum_without(self.active@, exhausted@, Self::source_stalls_fn());
        }
        clean_vec(&mut self.active, exhausted);
        proof {
            assert(self.content() =~= c0);
            assert(self.dispatched() + self.unread() =~= s0.dispatched() + s0.unread());
        }
        if all_done {
            proof {
                assert(self.content() =~= Multiset::<T>::empty());
            }
            Pull::Exhausted
        } else {
            Pull::Pending
        }
    }
}

impl<T, S1: Sequence<T>, S2: Source<T>, F: Derivation<S2>, M: Derive<T, S2, F>> Source<T> for SelectMap<
    T,
    S1,
    S2,
    F,
    M,
> {
    open spec fn remaining(&self) -> Multiset<T> {
        self.content()
    }

    open spec fn stalls(&self) -> nat {
        self.stall_bound()
    }

    open spec fn hint(&self) -> nat {
        self.hint_sum()
    }

    fn pull(&mut self) -> (r: Pull<T>) {
        self.poll_next()
    }

    fn lower_bound(&self) -> (r: usize) {
        self.size_hint()
    }
}

} // verus!
