use frs::recursive_streams::{
    collected_balanced_double_recursive_stream, collected_double_recursive_stream,
    collected_eliminated_single_recursive_stream, collected_filtered_single_recursive_stream,
    collected_non_sleeping_double_recursive_stream, collected_single_recursive_stream,
    collected_unbalanced_double_recursive_stream,
};
use frs::select_map::{clean_vec, SelectMap};
use frs::source::{Pull, Sequence, Source};
use frs::sources::{Latency, NestedFanOut, NestedMerge, RangeFanOut, RangeMerge, RangeSource};

fn fan_out(base: u32, wait: u32) -> RangeFanOut {
    RangeFanOut { base, latency: Latency::Fixed(wait), from: 0, to: u32::MAX }
}

#[test]
fn stream_1_to_9() {
    let mut streamed = collected_eliminated_single_recursive_stream(10);
    streamed.sort_unstable();
    assert_eq!(streamed, (1..=9).collect::<Vec<_>>());
}

#[test]
fn stream_1_to_99() {
    let mut streamed = collected_single_recursive_stream(10);
    streamed.sort_unstable();
    assert_eq!(streamed, (1..=99).collect::<Vec<_>>());
}

#[test]
fn stream_1_to_49() {
    let mut streamed = collected_filtered_single_recursive_stream(10);
    streamed.sort_unstable();
    assert_eq!(streamed, (1..=59).collect::<Vec<_>>());
}

#[test]
fn stream_1_to_999() {
    let mut streamed = collected_double_recursive_stream(10);
    streamed.sort_unstable();
    assert_eq!(streamed, (1..=999).collect::<Vec<_>>());
}

#[test]
fn stream_1_to_999_balanced() {
    let mut streamed = collected_balanced_double_recursive_stream(10);
    streamed.sort_unstable();
    assert_eq!(streamed, (1..=999).collect::<Vec<_>>());
}

#[test]
fn stream_1_to_999_unbalanced() {
    let mut streamed = collected_unbalanced_double_recursive_stream(10);
    streamed.sort_unstable();
    assert_eq!(streamed, (1..=999).collect::<Vec<_>>());
}

#[test]
fn stream_1_to_999_without_waiting() {
    let mut streamed = collected_non_sleeping_double_recursive_stream(10);
    streamed.sort_unstable();
    assert_eq!(streamed, (1..=999).collect::<Vec<_>>());
}

#[test]
fn eliminating_upper_half_keeps_lower_branches() {
    let map = RangeFanOut { base: 10, latency: Latency::Fixed(1), from: 0, to: 4 };
    let mut merge: RangeMerge = SelectMap::new(RangeSource::new(1, 10), map);
    let mut streamed = merge.collect();
    streamed.sort_unstable();
    assert_eq!(streamed, (1..=49).collect::<Vec<_>>());
}

#[test]
fn latency_changes_order_not_items() {
    let mut quick: RangeMerge = SelectMap::new(RangeSource::new(1, 10), fan_out(10, 0));
    let mut slow = SelectMap::new(
        RangeSource::new(1, 10),
        RangeFanOut { base: 10, latency: Latency::Falling(20), from: 0, to: u32::MAX },
    );
    let quick_items = quick.collect();
    let slow_items = slow.collect();
    assert_ne!(quick_items, slow_items);
    let (mut a, mut b) = (quick_items, slow_items);
    a.sort_unstable();
    b.sort_unstable();
    assert_eq!(a, b);
}

#[test]
fn primary_item_comes_before_its_block() {
    let streamed = collected_single_recursive_stream(10);
    for k in 1..10u32 {
        let parent = streamed.iter().position(|&x| x == k).unwrap();
        for child in 10 * k..10 * k + 10 {
            let at = streamed.iter().position(|&x| x == child).unwrap();
            assert!(parent < at);
        }
    }
}

#[test]
fn block_keeps_its_own_order() {
    let streamed = collected_single_recursive_stream(10);
    let block: Vec<u32> = streamed.iter().copied().filter(|&x| (30..40).contains(&x)).collect();
    assert_eq!(block, (30..40).collect::<Vec<_>>());
}

#[test]
fn construction_pulls_nothing() {
    let mut merge: RangeMerge = SelectMap::new(RangeSource::new(1, 3), fan_out(10, 0));
    assert!(!merge.is_terminated());
    assert!(matches!(merge.poll_next(), Pull::Ready(1)));
}

#[test]
fn scheduling_steps_with_a_waiting_derivation() {
    let mut merge: RangeMerge = SelectMap::new(RangeSource::new(1, 2), fan_out(10, 2));
    assert!(matches!(merge.poll_next(), Pull::Ready(1)));
    assert!(matches!(merge.poll_next(), Pull::Pending));
    assert!(matches!(merge.poll_next(), Pull::Pending));
    for expected in 10..20u32 {
        match merge.poll_next() {
            Pull::Ready(x) => assert_eq!(x, expected),
            _ => panic!("expected an item"),
        }
    }
    assert!(matches!(merge.poll_next(), Pull::Exhausted));
    assert!(merge.is_terminated());
}

#[test]
fn terminal_state_stays_terminal() {
    let mut merge: RangeMerge = SelectMap::new(RangeSource::new(1, 4), fan_out(10, 1));
    let streamed = merge.collect();
    assert_eq!(streamed.len(), 3 + 30);
    assert!(merge.is_terminated());
    for _ in 0..5 {
        assert!(matches!(merge.poll_next(), Pull::Exhausted));
        assert!(merge.is_terminated());
    }
    assert_eq!(merge.size_hint(), 0);
}

#[test]
fn empty_primary_ends_at_once() {
    let mut merge: RangeMerge = SelectMap::new(RangeSource::new(5, 5), fan_out(10, 0));
    assert!(matches!(merge.poll_next(), Pull::Exhausted));
    assert!(merge.is_terminated());
    assert!(merge.collect().is_empty());
}

#[test]
fn size_hint_counts_primary_and_active_sources() {
    let mut merge: RangeMerge = SelectMap::new(RangeSource::new(1, 10), fan_out(10, 0));
    assert_eq!(merge.size_hint(), 9);
    assert!(matches!(merge.poll_next(), Pull::Ready(1)));
    assert_eq!(merge.size_hint(), 8);
    assert!(matches!(merge.poll_next(), Pull::Ready(2)));
    assert_eq!(merge.size_hint(), 7);
}

#[test]
fn size_hint_after_primary_has_ended() {
    let mut merge: RangeMerge = SelectMap::new(RangeSource::new(1, 2), fan_out(10, 0));
    assert!(matches!(merge.poll_next(), Pull::Ready(1)));
    assert!(matches!(merge.poll_next(), Pull::Ready(10)));
    assert_eq!(merge.size_hint(), 9);
}

#[test]
fn nested_merge_is_a_source() {
    let map = NestedFanOut { base: 10, latency: Latency::Fixed(0), inner_latency: Latency::Fixed(0) };
    let mut merge: NestedMerge = SelectMap::new(RangeSource::new(2, 3), map);
    let mut streamed = Vec::new();
    loop {
        match Source::pull(&mut merge) {
            Pull::Ready(x) => streamed.push(x),
            Pull::Pending => {}
            Pull::Exhausted => break,
        }
    }
    streamed.sort_unstable();
    let mut expected = vec![2];
    expected.extend(20..30);
    expected.extend(200..300);
    assert_eq!(streamed, expected);
}

#[test]
fn block_that_does_not_fit_derives_nothing() {
    let mut merge: RangeMerge = SelectMap::new(RangeSource::new(70_000, 70_001), fan_out(70_000, 0));
    assert_eq!(merge.collect(), vec![70_000]);
}

#[test]
fn range_source_pulls_in_order() {
    let mut range = RangeSource::new(3, 6);
    assert_eq!(Sequence::lower_bound(&range), 3);
    assert!(matches!(range.pull_next(), Pull::Ready(3)));
    assert!(matches!(range.pull_next(), Pull::Ready(4)));
    assert!(matches!(range.pull_next(), Pull::Ready(5)));
    assert!(matches!(range.pull_next(), Pull::Exhausted));
    assert!(matches!(range.pull_next(), Pull::Exhausted));
    assert_eq!(Source::lower_bound(&range), 0);
}

#[test]
fn latency_for_items() {
    assert_eq!(Latency::Fixed(7).at(3), 7);
    assert_eq!(Latency::Rising(7).at(3), 10);
    assert_eq!(Latency::Rising(u32::MAX).at(3), u32::MAX);
    assert_eq!(Latency::Falling(7).at(3), 4);
    assert_eq!(Latency::Falling(2).at(3), 0);
}

#[test]
fn clean_vec_removes_the_given_positions() {
    let mut v = vec![10, 20, 30, 40, 50];
    clean_vec(&mut v, vec![0, 2, 4]);
    assert_eq!(v, vec![20, 40]);
}

#[test]
fn clean_vec_removes_adjacent_positions() {
    let mut v = vec![1, 2, 3, 4];
    clean_vec(&mut v, vec![1, 2]);
    assert_eq!(v, vec![1, 4]);
}

#[test]
fn clean_vec_without_positions_keeps_all() {
    let mut v = vec![1, 2, 3];
    clean_vec(&mut v, Vec::new());
    assert_eq!(v, vec![1, 2, 3]);
}

#[test]
fn clean_vec_removes_everything() {
    let mut v = vec!['a', 'b', 'c'];
    clean_vec(&mut v, vec![0, 1, 2]);
    assert!(v.is_empty());
}

#[test]
fn stream_1_to_9999_three_levels() {
    let mut streamed = frs::recursive_streams::collected_triple_recursive_stream(10);
    streamed.sort_unstable();
    assert_eq!(streamed, (1..=9999).collect::<Vec<_>>());
}

#[test]
fn stream_1_to_9999_three_levels_without_waiting() {
    let mut streamed = frs::recursive_streams::collected_non_sleeping_triple_recursive_stream(10);
    streamed.sort_unstable();
    assert_eq!(streamed, (1..=9999).collect::<Vec<_>>());
}
