use vstd::prelude::*;
use std::collections::VecDeque;
use crate::history::{leading_older, prune_before};

verus! {

/// How long the price-impact plugin keeps prices and trades (65 s, enough
/// for its longest window).
pub const IMPACT_HISTORY_MS: u64 = 65000;

/// The most entries a price or trade history of one symbol holds.
pub const IMPACT_HISTORY_CAP: usize = 10000;

/// The windows of the price-impact report, shortest first, with their
/// labels.
pub fn impact_windows() -> (w: Vec<(u64, &'static str)>)
    ensures
        w.len() == 7,
        w[0].0 == 100 && w[0].1@ == "100ms"@,
        w[1].0 == 500 && w[1].1@ == "500ms"@,
        w[2].0 == 1000 && w[2].1@ == "1s"@,
        w[3].0 == 5000 && w[3].1@ == "5s"@,
        w[4].0 == 10000 && w[4].1@ == "10s"@,
        w[5].0 == 30000 && w[5].1@ == "30s"@,
        w[6].0 == 60000 && w[6].1@ == "60s"@,
{
    let mut w: Vec<(u64, &'static str)> = Vec::new();
    w.push((100, "100ms"));
    w.push((500, "500ms"));
    w.push((1000, "1s"));
    w.push((5000, "5s"));
    w.push((10000, "10s"));
    w.push((30000, "30s"));
    w.push((60000, "60s"));
    w
}

/// The time of an observation: the local receive time when it is given and
/// positive, else the event time when given and positive, else now.
pub open spec fn observation_time_spec(local: Option<u64>, event: Option<u64>, now_ms: u64) -> u64 {
    if local matches Some(t) && t > 0 {
        local->0
    } else if event matches Some(t) && t > 0 {
        event->0
    } else {
        now_ms
    }
}

/// Picks the time of an observation.
pub fn observation_time(local: Option<u64>, event: Option<u64>, now_ms: u64) -> (t: u64)
    ensures
        t == observation_time_spec(local, event, now_ms),
{
    match local {
        Some(t) if t > 0 => t,
        _ => match event {
            Some(t) if t > 0 => t,
            _ => now_ms,
        },
    }
}

/// The history after dropping one entry from the front when it holds more
/// than `cap`.
pub open spec fn capped<T>(s: Seq<(u64, T)>, cap: nat) -> Seq<(u64, T)> {
    if s.len() > cap {
        s.drop_first()
    } else {
        s
    }
}

/// The history after dropping front entries older than `start`, always
/// keeping the newest one.
pub open spec fn pruned_keep_last<T>(s: Seq<(u64, T)>, start: u64) -> Seq<(u64, T)> {
    let k = leading_older(s, start);
    if s.len() > 0 && k >= s.len() {
        s.skip(s.len() - 1)
    } else {
        s.skip(k as int)
    }
}

proof fn lemma_leading_older_bound<T>(s: Seq<(u64, T)>, start: u64)
    ensures
        leading_older(s, start) <= s.len(),
        forall|i: int| 0 <= i < leading_older(s, start) ==> (#[trigger] s[i]).0 < start,
        leading_older(s, start) < s.len() ==> s[leading_older(s, start) as int].0 >= start,
    decreases s.len(),
{
    if s.len() > 0 && s[0].0 < start {
        lemma_leading_older_bound(s.drop_first(), start);
        assert forall|i: int| 0 <= i < leading_older(s, start) implies (#[trigger] s[i]).0 < start by {
            if i > 0 {
                assert(s[i] == s.drop_first()[i - 1]);
            }
        }
        if leading_older(s, start) < s.len() {
            assert(s[leading_older(s, start) as int] == s.drop_first()[leading_older(s.drop_first(), start) as int]);
        }
    }
}

/// The price history of a symbol after a new best-price snapshot stamped
/// `stamp`: the snapshot is added only when it is newer than the newest
/// one, entries older than the history span before `stamp` are dropped
/// (the newest always stays), and one entry goes when the cap is passed.
pub open spec fn snapshot_history<T>(s: Seq<(u64, T)>, stamp: u64, item: T) -> Seq<(u64, T)> {
    let added = if s.len() == 0 || s.last().0 < stamp {
        s.push((stamp, item))
    } else {
        s
    };
    let start = if stamp >= IMPACT_HISTORY_MS { (stamp - IMPACT_HISTORY_MS) as u64 } else { 0 };
    capped(pruned_keep_last(added, start), IMPACT_HISTORY_CAP as nat)
}

/// The trade history of a symbol after a new trade stamped `stamp`: the
/// trade is added, entries older than the history span before `stamp` are
/// dropped, and one entry goes when the cap is passed.
pub open spec fn trade_history<T>(s: Seq<(u64, T)>, stamp: u64, item: T) -> Seq<(u64, T)> {
    let added = s.push((stamp, item));
    let start = if stamp >= IMPACT_HISTORY_MS { (stamp - IMPACT_HISTORY_MS) as u64 } else { 0 };
    let kept = added.skip(leading_older(added, start) as int);
    capped(kept, IMPACT_HISTORY_CAP as nat)
}

fn drop_one_over_cap<T>(q: &mut VecDeque<(u64, T)>)
    ensures
        final(q)@ == capped(old(q)@, IMPACT_HISTORY_CAP as nat),
{
    if q.len() > IMPACT_HISTORY_CAP {
        let _ = q.pop_front();
    }
}

fn prune_keep_last<T>(q: &mut VecDeque<(u64, T)>, start: u64)
    ensures
        final(q)@ == pruned_keep_last(old(q)@, start),
{
    let ghost s0 = q@;
    let ghost mut dropped: int = 0;
    proof {
        lemma_leading_older_bound(s0, start);
    }
    while q.len() > 1 && q[0].0 < start
        invariant
            0 <= dropped <= s0.len(),
            q@ == s0.skip(dropped),
            dropped <= leading_older(s0, start),
            dropped < s0.len() || s0.len() == 0,
            forall|i: int| 0 <= i < leading_older(s0, start) ==> (#[trigger] s0[i]).0 < start,
            leading_older(s0, start) <= s0.len(),
            leading_older(s0, start) < s0.len() ==> s0[leading_older(s0, start) as int].0 >= start,
        decreases q@.len(),
    {
        let ghost before = q@;
        let _ = q.pop_front();
        proof {
            assert(before[0] == s0[dropped]);
            assert(q@ =~= before.drop_first());
            assert(s0.skip(dropped + 1) =~= before.drop_first());
            dropped = dropped + 1;
        }
    }
    proof {
        let k = leading_older(s0, start);
        if s0.len() > 0 {
            if q@.len() <= 1 {
                assert(dropped == s0.len() - 1);
                if k < s0.len() {
                    assert(dropped <= k);
                    if dropped < k {
                        assert(s0[dropped].0 < start);
                    }
                }
            } else {
                assert(q@[0] == s0[dropped]);
                assert(s0[dropped].0 >= start);
                if dropped < k {
                    assert(s0[dropped].0 < start);
                }
                assert(dropped == k);
            }
        }
    }
}

/// Adds a best-price snapshot to a symbol's price history and trims it.
pub fn record_snapshot<T>(q: &mut VecDeque<(u64, T)>, stamp: u64, item: T)
    requires
        old(q)@.len() < usize::MAX,
    ensures
        final(q)@ == snapshot_history(old(q)@, stamp, item),
{
    let newer = if q.len() == 0 {
        true
    } else {
        q[q.len() - 1].0 < stamp
    };
    if newer {
        q.push_back((stamp, item));
    }
    let start = stamp.saturating_sub(IMPACT_HISTORY_MS);
    prune_keep_last(q, start);
    drop_one_over_cap(q);
}

/// Adds a trade to a symbol's trade history and trims it.
pub fn record_trade<T>(q: &mut VecDeque<(u64, T)>, stamp: u64, item: T)
    requires
        old(q)@.len() < usize::MAX,
    ensures
        final(q)@ == trade_history(old(q)@, stamp, item),
{
    q.push_back((stamp, item));
    let start = stamp.saturating_sub(IMPACT_HISTORY_MS);
    prune_before(q, start);
    drop_one_over_cap(q);
}

/// What a payload to the price-impact plugin carries.
#[derive(Debug, Clone, Copy, PartialEq, Eq, Structural)]
pub enum ImpactPayload {
    /// A gateway snapshot: its best-price, trade and aggregate-trade parts
    /// are read, whichever it has.
    Combined,
    /// Best prices per symbol.
    BestPrices,
    /// Trades per symbol.
    Trades,
    /// Nothing the plugin reads.
    Unknown,
}

/// Reads what a payload carries from the keys it has: the gateway's stream
/// keys first, else the fields of its first entry.
pub fn classify_impact_payload(
    has_bestprice: bool,
    has_trades: bool,
    has_aggtrades: bool,
    sample_has_bid_or_ask: bool,
    sample_has_price: bool,
    sample_has_quantity_or_id: bool,
) -> (p: ImpactPayload)
    ensures
        p == (if has_bestprice || has_trades || has_aggtrades {
            ImpactPayload::Combined
        } else if sample_has_bid_or_ask {
            ImpactPayload::BestPrices
        } else if sample_has_price && sample_has_quantity_or_id {
            ImpactPayload::Trades
        } else {
            ImpactPayload::Unknown
        }),
{
    if has_bestprice || has_trades || has_aggtrades {
        ImpactPayload::Combined
    } else if sample_has_bid_or_ask {
        ImpactPayload::BestPrices
    } else if sample_has_price && sample_has_quantity_or_id {
        ImpactPayload::Trades
    } else {
        ImpactPayload::Unknown
    }
}

/// A symbol's histories stay within their cap: starting within it, a new
/// snapshot or trade leaves at most `IMPACT_HISTORY_CAP` entries, and the
/// price history is never left empty.
pub proof fn lemma_impact_histories_bounded<T>(s: Seq<(u64, T)>, stamp: u64, item: T)
    requires
        s.len() <= IMPACT_HISTORY_CAP,
    ensures
        snapshot_history(s, stamp, item).len() <= IMPACT_HISTORY_CAP,
        snapshot_history(s, stamp, item).len() >= 1,
        trade_history(s, stamp, item).len() <= IMPACT_HISTORY_CAP,
{
    let added = if s.len() == 0 || s.last().0 < stamp {
        s.push((stamp, item))
    } else {
        s
    };
    let start = if stamp >= IMPACT_HISTORY_MS { (stamp - IMPACT_HISTORY_MS) as u64 } else { 0 };
    lemma_leading_older_bound(added, start);
    let pushed = s.push((stamp, item));
    lemma_leading_older_bound(pushed, start);
}

/// An observation is timed by its local receive time when that is given
/// and positive, else by its event time when that is given and positive,
/// else by the present.
pub proof fn lemma_observation_time_choice(local: Option<u64>, event: Option<u64>, now_ms: u64)
    ensures
        local is Some && local->0 > 0 ==> observation_time_spec(local, event, now_ms) == local->0,
        !(local is Some && local->0 > 0) && event is Some && event->0 > 0 ==> observation_time_spec(local, event, now_ms)
            == event->0,
        !(local is Some && local->0 > 0) && !(event is Some && event->0 > 0) ==> observation_time_spec(
            local,
            event,
            now_ms,
        ) == now_ms,
{
}

} // verus!
