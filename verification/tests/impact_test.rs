use cycle_orc::impact::{
    classify_impact_payload, impact_windows, observation_time, record_snapshot, record_trade, ImpactPayload,
    IMPACT_HISTORY_CAP,
};
use std::collections::VecDeque;

#[test]
fn report_windows() {
    let w = impact_windows();
    let labels: Vec<&str> = w.iter().map(|(_, l)| *l).collect();
    assert_eq!(labels, vec!["100ms", "500ms", "1s", "5s", "10s", "30s", "60s"]);
    assert_eq!(w[6].0, 60000);
}

#[test]
fn observation_time_prefers_local_receive_time() {
    assert_eq!(observation_time(Some(5), Some(7), 9), 5);
    assert_eq!(observation_time(Some(0), Some(7), 9), 7);
    assert_eq!(observation_time(None, Some(0), 9), 9);
    assert_eq!(observation_time(None, None, 9), 9);
}

#[test]
fn snapshots_only_move_forward_and_keep_the_newest() {
    let mut q: VecDeque<(u64, char)> = VecDeque::new();
    record_snapshot(&mut q, 1000, 'a');
    record_snapshot(&mut q, 1000, 'b');
    assert_eq!(q, VecDeque::from(vec![(1000, 'a')]));
    record_snapshot(&mut q, 2000, 'c');
    assert_eq!(q.len(), 2);
    record_snapshot(&mut q, 100_000, 'd');
    assert_eq!(q, VecDeque::from(vec![(100_000, 'd')]));
    record_snapshot(&mut q, 50, 'e');
    assert_eq!(q, VecDeque::from(vec![(100_000, 'd')]));
}

#[test]
fn trades_older_than_the_span_are_dropped() {
    let mut q: VecDeque<(u64, u32)> = VecDeque::new();
    record_trade(&mut q, 1000, 1);
    record_trade(&mut q, 60_000, 2);
    assert_eq!(q.len(), 2);
    record_trade(&mut q, 70_000, 3);
    assert_eq!(q, VecDeque::from(vec![(60_000, 2), (70_000, 3)]));
    record_trade(&mut q, 10, 4);
    assert_eq!(q, VecDeque::from(vec![(60_000, 2), (70_000, 3), (10, 4)]));
}

#[test]
fn histories_are_capped() {
    let mut q: VecDeque<(u64, u32)> = VecDeque::new();
    for i in 0..(IMPACT_HISTORY_CAP as u64 + 5) {
        record_trade(&mut q, 1000 + i, 0);
    }
    assert_eq!(q.len(), IMPACT_HISTORY_CAP);
    assert_eq!(q[0].0, 1005);
}

#[test]
fn payload_kinds() {
    assert_eq!(classify_impact_payload(true, false, false, true, true, true), ImpactPayload::Combined);
    assert_eq!(classify_impact_payload(false, false, true, false, false, false), ImpactPayload::Combined);
    assert_eq!(classify_impact_payload(false, false, false, true, true, true), ImpactPayload::BestPrices);
    assert_eq!(classify_impact_payload(false, false, false, false, true, true), ImpactPayload::Trades);
    assert_eq!(classify_impact_payload(false, false, false, false, true, false), ImpactPayload::Unknown);
}
