use crate::select_map::SelectMap;
use crate::source::{Derivation, Derive, Pull, Resolution, Sequence, Source};
use vstd::multiset::Multiset;
use vstd::prelude::*;

verus! {

broadcast use vstd::multiset::group_multiset_axioms;

/// The integers `start..end`, ascending.
pub open spec fn range_seq(start: u32, end: u32) -> Seq<u32> {
    Seq::new(
        if start < end {
            (end - start) as nat
        } else {
            0
        },
        |k: int| (start + k) as u32,
    )
}

proof fn lemma_front_to_multiset(s: Seq<u32>)
    requires
        s.len() > 0,
    ensures
        s.to_multiset() == s.drop_first().to_multiset().insert(s[0]),
{
    let one = Seq::<u32>::empty().push(s[0]);
    assert(s =~= one + s.drop_first());
    vstd::seq_lib::lemma_multiset_commutative(one, s.drop_first());
    vstd::seq_lib::to_multiset_build(Seq::<u32>::empty(), s[0]);
    vstd::seq_lib::to_multiset_len(Seq::<u32>::empty());
    vstd::multiset::lemma_multiset_empty_len(Seq::<u32>::empty().to_multiset());
    assert(s.to_multiset() =~= s.drop_first().to_multiset().insert(s[0]));
}

/// The integers `next..end`, yielded in ascending order and always ready.
#[derive(Clone, Copy, Debug)]
pub struct RangeSource {
    pub next: u32,
    pub end: u32,
}

impl RangeSource {
    pub fn new(start: u32, end: u32) -> (r: Self)
        ensures
            r.upcoming() == range_seq(start, end),
    {
        RangeSource { next: start, end }
    }
}

impl Sequence<u32> for RangeSource {
    open spec fn upcoming(&self) -> Seq<u32> {
        range_seq(self.next, self.end)
    }

    open spec fn stalls(&self) -> nat {
        0
    }

    open spec fn hint(&self) -> nat {
        self.upcoming().len()
    }

    fn pull_next(&mut self) -> (r: Pull<u32>) {
        if self.next < self.end {
            let x = self.next;
            self.next = self.next + 1;
            proof {
                assert(range_seq(self.next, self.end) =~= range_seq(x, self.end).drop_first());
            }
            Pull::Ready(x)
        } else {
            Pull::Exhausted
        }
    }

    fn lower_bound(&self) -> (r: usize) {
        self.remaining_len()
    }
}

impl Source<u32> for RangeSource {
    open spec fn remaining(&self) -> Multiset<u32> {
        self.upcoming().to_multiset()
    }

    open spec fn stalls(&self) -> nat {
        0
    }

    open spec fn hint(&self) -> nat {
        self.upcoming().len()
    }

    fn pull(&mut self) -> (r: Pull<u32>) {
        let ghost before = self.upcoming();
        let r = self.pull_next();
        proof {
            if before.len() > 0 {
                lemma_front_to_multiset(before);
            }
            vstd::seq_lib::to_multiset_len(self.upcoming());
            vstd::multiset::lemma_multiset_empty_len(self.upcoming().to_multiset());
            vstd::seq_lib::to_multiset_len(before);
            vstd::multiset::lemma_multiset_empty_len(before.to_multiset());
        }
        r
    }

    fn lower_bound(&self) -> (r: usize) {
        proof {
            vstd::seq_lib::to_multiset_len(self.upcoming());
        }
        self.remaining_len()
    }
}

impl RangeSource {
    /// How many integers are still to come.
    pub fn remaining_len(&self) -> (r: usize)
        ensures
            r == self.upcoming().len(),
    {
        if self.next < self.end {
            (self.end - self.next) as usize
        } else {
            0
        }
    }
}

/// A derivation that stays unresolved for `wait` polls and then resolves to
/// `outcome`.
pub struct Delayed<S> {
    pub wait: u32,
    pub outcome: Option<S>,
}

impl<S> Derivation<S> for Delayed<S> {
    open spec fn outcome(&self) -> Option<S> {
        self.outcome
    }

    open spec fn stalls(&self) -> nat {
        self.wait as nat
    }

    fn resolve(&mut self) -> (r: Resolution<S>) {
        if self.wait > 0 {
            self.wait = self.wait - 1;
            Resolution::Pending
        } else {
            match self.outcome.take() {
                Some(s) => Resolution::Derived(s),
                None => Resolution::Nothing,
            }
        }
    }
}

/// How many polls a derivation started for item `k` stays unresolved.
#[derive(Clone, Copy, Debug)]
pub enum Latency {
    /// Always `n`.
    Fixed(u32),
    /// `n + k`, saturating.
    Rising(u32),
    /// `n - k`, saturating at zero.
    Falling(u32),
}

impl Latency {
    pub open spec fn spec_at(self, k: u32) -> u32 {
        match self {
            Latency::Fixed(n) => n,
            Latency::Rising(n) => if n + k <= u32::MAX {
                (n + k) as u32
            } else {
                u32::MAX
            },
            Latency::Falling(n) => if n >= k {
                (n - k) as u32
            } else {
                0
            },
        }
    }

    pub fn at(&self, k: u32) -> (r: u32)
        ensures
            r == self.spec_at(k),
    {
        match self {
            Latency::Fixed(n) => *n,
            Latency::Rising(n) => n.saturating_add(k),
            Latency::Falling(n) => n.saturating_sub(k),
        }
    }
}

/// `base * k + base` fits in a `u32`.
pub open spec fn block_fits(base: u32, k: u32) -> bool {
    base * k + base <= u32::MAX
}

/// The block `base * k .. base * k + base`.
pub open spec fn block(base: u32, k: u32) -> Seq<u32> {
    range_seq((base * k) as u32, (base * k + base) as u32)
}

/// Computes the block bounds of `k`, if they fit in a `u32`.
fn block_bounds(base: u32, k: u32) -> (r: Option<(u32, u32)>)
    ensures
        r is Some <==> block_fits(base, k),
        r matches Some((start, end)) ==> start == base * k && end == base * k + base,
{
    let b: u64 = base as u64;
    let kk: u64 = k as u64;
    proof {
        assert(b * kk <= 0xFFFF_FFFE_0000_0001) by (nonlinear_arith)
            requires
                b <= 0xFFFF_FFFF,
                kk <= 0xFFFF_FFFF,
        ;
    }
    let wide: u64 = b * kk + b;
    if wide <= u32::MAX as u64 {
        Some((base * k, base * k + base))
    } else {
        None
    }
}

/// Maps a primary item `k` with `from <= k <= to` to the block
/// `base * k .. base * k + base`, and any other item to nothing, after the
/// latency for `k`. A block that does not fit in a `u32` counts as nothing.
#[derive(Clone, Copy, Debug)]
pub struct RangeFanOut {
    pub base: u32,
    pub latency: Latency,
    pub from: u32,
    pub to: u32,
}

impl RangeFanOut {
    pub open spec fn derives_block(self, k: u32) -> bool {
        self.from <= k && k <= self.to && block_fits(self.base, k)
    }
}

impl Derive<u32, RangeSource, Delayed<RangeSource>> for RangeFanOut {
    open spec fn yields(&self, k: u32) -> Multiset<u32> {
        if self.derives_block(k) {
            block(self.base, k).to_multiset()
        } else {
            Multiset::empty()
        }
    }

    open spec fn delays(&self, k: u32) -> nat {
        self.latency.spec_at(k) as nat
    }

    fn derive(&self, item: &u32) -> (f: Delayed<RangeSource>) {
        let k = *item;
        let wait = self.latency.at(k);
        let outcome = if self.from <= k && k <= self.to {
            match block_bounds(self.base, k) {
                Some((start, end)) => Some(RangeSource::new(start, end)),
                None => None,
            }
        } else {
            None
        };
        Delayed { wait, outcome }
    }
}

/// A merge of one block with its own blocks derived by a `RangeFanOut`.
pub type RangeMerge = SelectMap<u32, RangeSource, RangeSource, Delayed<RangeSource>, RangeFanOut>;

/// Maps a primary item `k` to a merge of the block `base * k .. base * k + base`
/// in which each item `j` derives the block `base * j .. base * j + base`.
/// The outer derivation waits `latency` for `k`, each inner one
/// `inner_latency` for `k`.
#[derive(Clone, Copy, Debug)]
pub struct NestedFanOut {
    pub base: u32,
    pub latency: Latency,
    pub inner_latency: Latency,
}

impl NestedFanOut {
    /// The mapping of the inner merge started for `k`.
    pub open spec fn inner_map(self, k: u32) -> RangeFanOut {
        RangeFanOut {
            base: self.base,
            latency: Latency::Fixed(self.inner_latency.spec_at(k)),
            from: 0,
            to: u32::MAX,
        }
    }
}

impl Derive<u32, RangeMerge, Delayed<RangeMerge>> for NestedFanOut {
    open spec fn yields(&self, k: u32) -> Multiset<u32> {
        if block_fits(self.base, k) {
            RangeMerge::spawned_items(self.inner_map(k), block(self.base, k))
        } else {
            Multiset::empty()
        }
    }

    open spec fn delays(&self, k: u32) -> nat {
        self.latency.spec_at(k) as nat + if block_fits(self.base, k) {
            RangeMerge::spawned_stalls(self.inner_map(k), block(self.base, k))
        } else {
            0
        }
    }

    fn derive(&self, item: &u32) -> (f: Delayed<RangeMerge>) {
        let k = *item;
        let wait = self.latency.at(k);
        let outcome = match block_bounds(self.base, k) {
            Some((start, end)) => {
                let inner = RangeFanOut {
                    base: self.base,
                    latency: Latency::Fixed(self.inner_latency.at(k)),
                    from: 0,
                    to: u32::MAX,
                };
                Some(SelectMap::new(RangeSource::new(start, end), inner))
            },
            None => None,
        };
        Delayed { wait, outcome }
    }
}

/// A merge of nested merges, two levels deep.
pub type NestedMerge = SelectMap<u32, RangeSource, RangeMerge, Delayed<RangeMerge>, NestedFanOut>;

/// Maps a primary item `k` to a merge of the block `base * k .. base * k + base`
/// in which each item derives, as a `NestedFanOut` does, a merge two levels
/// deep. The derivations started for `k` wait `latency`, those of the
/// middle level `middle_latency` and those of the innermost `inner_latency`,
/// each for `k`.
#[derive(Clone, Copy, Debug)]
pub struct DeepFanOut {
    pub base: u32,
    pub latency: Latency,
    pub middle_latency: Latency,
    pub inner_latency: Latency,
}

impl DeepFanOut {
    /// The mapping of the middle merge started for `k`.
    pub open spec fn middle_map(self, k: u32) -> NestedFanOut {
        NestedFanOut {
            base: self.base,
            latency: Latency::Fixed(self.middle_latency.spec_at(k)),
            inner_latency: Latency::Fixed(self.inner_latency.spec_at(k)),
        }
    }
}

impl Derive<u32, NestedMerge, Delayed<NestedMerge>> for DeepFanOut {
    open spec fn yields(&self, k: u32) -> Multiset<u32> {
        if block_fits(self.base, k) {
            NestedMerge::spawned_items(self.middle_map(k), block(self.base, k))
        } else {
            Multiset::empty()
        }
    }

    open spec fn delays(&self, k: u32) -> nat {
        self.latency.spec_at(k) as nat + if block_fits(self.base, k) {
            NestedMerge::spawned_stalls(self.middle_map(k), block(self.base, k))
        } else {
            0
        }
    }

    fn derive(&self, item: &u32) -> (f: Delayed<NestedMerge>) {
        let k = *item;
        let wait = self.latency.at(k);
        let outcome = match block_bounds(self.base, k) {
            Some((start, end)) => {
                let middle = NestedFanOut {
                    base: self.base,
                    latency: Latency::Fixed(self.middle_latency.at(k)),
                    inner_latency: Latency::Fixed(self.inner_latency.at(k)),
                };
                Some(SelectMap::new(RangeSource::new(start, end), middle))
            },
            None => None,
        };
        Delayed { wait, outcome }
    }
}

/// A merge of nested merges, three levels deep.
pub type DeepMerge = SelectMap<u32, RangeSource, NestedMerge, Delayed<NestedMerge>, DeepFanOut>;

/// Latency moves items in time, never in or out: fanning out blocks with one
/// latency or with another gives a merge over `xs` the same items.
pub proof fn lemma_latency_keeps_items(
    base: u32,
    from: u32,
    to: u32,
    first: Latency,
    second: Latency,
    xs: Seq<u32>,
)
    ensures
        RangeMerge::spawned_items(RangeFanOut { base, latency: first, from, to }, xs)
            == RangeMerge::spawned_items(RangeFanOut { base, latency: second, from, to }, xs),
    decreases xs.len(),
{
    if xs.len() > 0 {
        lemma_latency_keeps_items(base, from, to, first, second, xs.drop_first());
    }
}

/// The same for merges nested two levels deep: neither the outer nor the
/// inner latency changes which items come.
pub proof fn lemma_nested_latency_keeps_items(
    base: u32,
    first: Latency,
    first_inner: Latency,
    second: Latency,
    second_inner: Latency,
    xs: Seq<u32>,
)
    ensures
        NestedMerge::spawned_items(
            NestedFanOut { base, latency: first, inner_latency: first_inner },
            xs,
        ) == NestedMerge::spawned_items(
            NestedFanOut { base, latency: second, inner_latency: second_inner },
            xs,
        ),
    decreases xs.len(),
{
    if xs.len() > 0 {
        let k = xs[0];
        let a = NestedFanOut { base, latency: first, inner_latency: first_inner };
        let b = NestedFanOut { base, latency: second, inner_latency: second_inner };
        lemma_latency_keeps_items(
            base,
            0,
            u32::MAX,
            Latency::Fixed(first_inner.spec_at(k)),
            Latency::Fixed(second_inner.spec_at(k)),
            block(base, k),
        );
        assert(a.yields(k) == b.yields(k));
        lemma_nested_latency_keeps_items(base, first, first_inner, second, second_inner, xs.drop_first());
    }
}

} // verus!
