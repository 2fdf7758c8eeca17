use cycle_orc::history::{prune_before, push_capped, push_trimmed};
use std::collections::VecDeque;

#[test]
fn capped_history_drops_one_oldest_entry() {
    let mut h: VecDeque<u32> = VecDeque::new();
    for i in 0..5 {
        push_capped(&mut h, i, 3);
    }
    assert_eq!(h, VecDeque::from(vec![2, 3, 4]));
}

#[test]
fn trimmed_history_shrinks_to_a_lowered_limit() {
    let mut h: VecDeque<u32> = (0..10).collect();
    push_trimmed(&mut h, 10, 4);
    assert_eq!(h, VecDeque::from(vec![7, 8, 9, 10]));
    push_trimmed(&mut h, 11, 6);
    assert_eq!(h, VecDeque::from(vec![7, 8, 9, 10, 11]));
}

#[test]
fn capped_history_above_its_limit_shrinks_by_one_per_push() {
    let mut h: VecDeque<u32> = (0..10).collect();
    push_capped(&mut h, 10, 4);
    assert_eq!(h.len(), 10);
    assert_eq!(h[0], 1);
}

#[test]
fn pruning_drops_entries_older_than_the_window() {
    let mut h: VecDeque<(u64, &str)> = VecDeque::from(vec![(100, "a"), (150, "b"), (200, "c"), (120, "d")]);
    prune_before(&mut h, 160);
    assert_eq!(h, VecDeque::from(vec![(200, "c"), (120, "d")]));
    prune_before(&mut h, 0);
    assert_eq!(h.len(), 2);
    prune_before(&mut h, 1000);
    assert!(h.is_empty());
}
