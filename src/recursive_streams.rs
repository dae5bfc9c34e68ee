use crate::select_map::SelectMap;
use crate::sources::{
    range_seq, DeepFanOut, DeepMerge, Latency, NestedFanOut, NestedMerge, RangeFanOut, RangeMerge,
    RangeSource,
};
use vstd::prelude::*;

verus! {

/// The primary `1..base`, merged with the block of every item, each derived
/// after one poll.
pub fn collected_single_recursive_stream(base: u32) -> (r: Vec<u32>)
    ensures
        r@.to_multiset() == RangeMerge::spawned_items(
            (RangeFanOut { base, latency: Latency::Fixed(1), from: 0, to: u32::MAX }),
            range_seq(1, base),
        ),
{
    let map = RangeFanOut { base, latency: Latency::Fixed(1), from: 0, to: u32::MAX };
    let mut merge: RangeMerge = SelectMap::new(RangeSource::new(1, base), map);
    merge.collect()
}

/// The primary `1..base`, where only the item `base` would derive a block: no
/// item of the primary does, so only the primary is yielded.
pub fn collected_eliminated_single_recursive_stream(base: u32) -> (r: Vec<u32>)
    ensures
        r@.to_multiset() == RangeMerge::spawned_items(
            (RangeFanOut { base, latency: Latency::Fixed(1), from: base, to: base }),
            range_seq(1, base),
        ),
{
    let map = RangeFanOut { base, latency: Latency::Fixed(1), from: base, to: base };
    let mut merge: RangeMerge = SelectMap::new(RangeSource::new(1, base), map);
    merge.collect()
}

/// The primary `1..base`, where the items up to `base / 2` derive their block
/// and the others nothing.
pub fn collected_filtered_single_recursive_stream(base: u32) -> (r: Vec<u32>)
    ensures
        r@.to_multiset() == RangeMerge::spawned_items(
            (RangeFanOut { base, latency: Latency::Fixed(1), from: 0, to: base / 2 }),
            range_seq(1, base),
        ),
{
    let map = RangeFanOut { base, latency: Latency::Fixed(1), from: 0, to: base / 2 };
    let mut merge: RangeMerge = SelectMap::new(RangeSource::new(1, base), map);
    merge.collect()
}

fn collected_nested(base: u32, latency: Latency, inner_latency: Latency) -> (r: Vec<u32>)
    ensures
        r@.to_multiset() == NestedMerge::spawned_items(
            (NestedFanOut { base, latency, inner_latency }),
            range_seq(1, base),
        ),
{
    let map = NestedFanOut { base, latency, inner_latency };
    let mut merge: NestedMerge = SelectMap::new(RangeSource::new(1, base), map);
    merge.collect()
}

/// The primary `1..base`; each item `k` derives a merge of its block in which
/// each item `j` derives its own block. No derivation waits.
pub fn collected_non_sleeping_double_recursive_stream(base: u32) -> (r: Vec<u32>)
    ensures
        r@.to_multiset() == NestedMerge::spawned_items(
            (NestedFanOut { base, latency: Latency::Fixed(0), inner_latency: Latency::Fixed(0) }),
            range_seq(1, base),
        ),
{
    collected_nested(base, Latency::Fixed(0), Latency::Fixed(0))
}

/// As the non-waiting double merge, with outer derivations that wait two
/// polls and inner ones that wait one.
pub fn collected_double_recursive_stream(base: u32) -> (r: Vec<u32>)
    ensures
        r@.to_multiset() == NestedMerge::spawned_items(
            (NestedFanOut { base, latency: Latency::Fixed(2), inner_latency: Latency::Fixed(1) }),
            range_seq(1, base),
        ),
{
    collected_nested(base, Latency::Fixed(2), Latency::Fixed(1))
}

/// As the double merge, where the outer derivation of `k` waits `2 * base - k`
/// polls and the inner ones of its merge `base + k`.
pub fn collected_balanced_double_recursive_stream(base: u32) -> (r: Vec<u32>)
    ensures
        r@.to_multiset() == NestedMerge::spawned_items(
            (NestedFanOut {
                base,
                latency: Latency::Falling(if base + base <= u32::MAX { (base + base) as u32 } else { u32::MAX }),
                inner_latency: Latency::Rising(base),
            }),
            range_seq(1, base),
        ),
{
    collected_nested(base, Latency::Falling(base.saturating_add(base)), Latency::Rising(base))
}

/// As the double merge, where the outer derivation of `k` waits `2 * base - k`
/// polls and the inner ones of its merge `base - k`.
pub fn collected_unbalanced_double_recursive_stream(base: u32) -> (r: Vec<u32>)
    ensures
        r@.to_multiset() == NestedMerge::spawned_items(
            (NestedFanOut {
                base,
                latency: Latency::Falling(if base + base <= u32::MAX { (base + base) as u32 } else { u32::MAX }),
                inner_latency: Latency::Falling(base),
            }),
            range_seq(1, base),
        ),
{
    collected_nested(base, Latency::Falling(base.saturating_add(base)), Latency::Falling(base))
}

fn collected_deep(base: u32, latency: Latency, middle_latency: Latency, inner_latency: Latency) -> (r: Vec<u32>)
    ensures
        r@.to_multiset() == DeepMerge::spawned_items(
            (DeepFanOut { base, latency, middle_latency, inner_latency }),
            range_seq(1, base),
        ),
{
    let map = DeepFanOut { base, latency, middle_latency, inner_latency };
    let mut merge: DeepMerge = SelectMap::new(RangeSource::new(1, base), map);
    merge.collect()
}

/// The primary `1..base`, with merges three levels deep below each item. No
/// derivation waits.
pub fn collected_non_sleeping_triple_recursive_stream(base: u32) -> (r: Vec<u32>)
    ensures
        r@.to_multiset() == DeepMerge::spawned_items(
            (DeepFanOut {
                base,
                latency: Latency::Fixed(0),
                middle_latency: Latency::Fixed(0),
                inner_latency: Latency::Fixed(0),
            }),
            range_seq(1, base),
        ),
{
    collected_deep(base, Latency::Fixed(0), Latency::Fixed(0), Latency::Fixed(0))
}

/// As the non-waiting triple merge, with outer derivations that wait two polls
/// and the others one.
pub fn collected_triple_recursive_stream(base: u32) -> (r: Vec<u32>)
    ensures
        r@.to_multiset() == DeepMerge::spawned_items(
            (DeepFanOut {
                base,
                latency: Latency::Fixed(2),
                middle_latency: Latency::Fixed(1),
                inner_latency: Latency::Fixed(1),
            }),
            range_seq(1, base),
        ),
{
    collected_deep(base, Latency::Fixed(2), Latency::Fixed(1), Latency::Fixed(1))
}

} // verus!
