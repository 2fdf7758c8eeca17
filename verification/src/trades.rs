use vstd::prelude::*;
use vstd::hash_map::StringHashMap;

verus! {

/// The last trade id seen per symbol, used to drop repeated trades.
pub struct TradeIdTracker {
    last: StringHashMap<i64>,
}

impl View for TradeIdTracker {
    type V = Map<Seq<char>, i64>;

    closed spec fn view(&self) -> Map<Seq<char>, i64> {
        self.last@
    }
}

/// A trade repeats the last one of its symbol: it carries a positive id
/// equal to the id last recorded for that symbol.
pub open spec fn is_repeat(last: Map<Seq<char>, i64>, symbol: Seq<char>, trade_id: i64) -> bool {
    trade_id > 0 && last.contains_key(symbol) && last[symbol] == trade_id
}

impl TradeIdTracker {
    /// No trade seen yet.
    pub fn new() -> (t: Self)
        ensures
            t@ == Map::<Seq<char>, i64>::empty(),
    {
        TradeIdTracker { last: StringHashMap::new() }
    }

    /// Whether the trade repeats the last one recorded for its symbol.
    pub fn is_duplicate(&self, symbol: &str, trade_id: i64) -> (r: bool)
        ensures
            r == is_repeat(self@, symbol@, trade_id),
    {
        if trade_id > 0 {
            match self.last.get(symbol) {
                Some(last) => *last == trade_id,
                None => false,
            }
        } else {
            false
        }
    }

    /// Records a trade as the last one of its symbol; trades without a
    /// positive id are not recorded.
    pub fn record(&mut self, symbol: &str, trade_id: i64)
        ensures
            final(self)@ == (if trade_id > 0 {
                old(self)@.insert(symbol@, trade_id)
            } else {
                old(self)@
            }),
    {
        if trade_id > 0 {
            self.last.insert(symbol.to_string(), trade_id);
        }
    }

    /// Whether the one-second OHLCV plugin takes a trade: a repeat is
    /// refused and leaves the record as it was; any other trade is accepted
    /// and recorded.
    pub fn accept_trade(&mut self, symbol: &str, trade_id: i64) -> (accepted: bool)
        ensures
            accepted == !is_repeat(old(self)@, symbol@, trade_id),
            accepted ==> final(self)@ == (if trade_id > 0 {
                old(self)@.insert(symbol@, trade_id)
            } else {
                old(self)@
            }),
            !accepted ==> final(self)@ == old(self)@,
    {
        if self.is_duplicate(symbol, trade_id) {
            false
        } else {
            self.record(symbol, trade_id);
            true
        }
    }
}

/// Once a trade is recorded, the same trade again is a repeat.
pub proof fn lemma_recorded_trade_repeats(last: Map<Seq<char>, i64>, symbol: Seq<char>, trade_id: i64)
    requires
        trade_id > 0,
    ensures
        is_repeat(last.insert(symbol, trade_id), symbol, trade_id),
{
}

/// The time of a trade: its event time when given, else the local receive
/// time when given, else the current time (zero means absent).
pub fn trade_timestamp_ms(event_time: u64, local_time: u64, now_ms: u64) -> (t: u64)
    ensures
        t == (if event_time > 0 {
            event_time
        } else if local_time > 0 {
            local_time
        } else {
            now_ms
        }),
{
    if event_time > 0 {
        event_time
    } else if local_time > 0 {
        local_time
    } else {
        now_ms
    }
}

/// The time of a trade from its optional event time and local receive
/// time: the first that is given (zero included), else now.
pub fn given_time_or(event_time: Option<u64>, local_time: Option<u64>, now_ms: u64) -> (t: u64)
    ensures
        t == (match event_time {
            Some(e) => e,
            None => match local_time {
                Some(l) => l,
                None => now_ms,
            },
        }),
{
    match event_time {
        Some(e) => e,
        None => match local_time {
            Some(l) => l,
            None => now_ms,
        },
    }
}

/// What a trade does to the active one-second candle of its symbol.
#[derive(Debug, Clone, Copy, PartialEq, Eq, Structural)]
pub enum SecondCandleUpdate {
    /// No candle yet: open one for the trade's second.
    Start,
    /// Same second: fold the trade in.
    Extend,
    /// A later second: retire the active candle to the history and open a
    /// new one.
    Roll,
    /// An earlier second: the trade is ignored.
    Skip,
}

/// How a trade at `timestamp_ms` changes the active candle that opened at
/// second `active_sec`.
pub open spec fn second_candle_update_spec(active_sec: Option<u64>, timestamp_ms: u64) -> SecondCandleUpdate {
    let sec = timestamp_ms / 1000;
    match active_sec {
        None => SecondCandleUpdate::Start,
        Some(a) => if a == sec {
            SecondCandleUpdate::Extend
        } else if a < sec {
            SecondCandleUpdate::Roll
        } else {
            SecondCandleUpdate::Skip
        },
    }
}

/// Decides how a trade changes the active one-second candle.
pub fn second_candle_update(active_sec: Option<u64>, timestamp_ms: u64) -> (r: SecondCandleUpdate)
    ensures
        r == second_candle_update_spec(active_sec, timestamp_ms),
{
    let sec = timestamp_ms / 1000;
    match active_sec {
        None => SecondCandleUpdate::Start,
        Some(a) => if a == sec {
            SecondCandleUpdate::Extend
        } else if a < sec {
            SecondCandleUpdate::Roll
        } else {
            SecondCandleUpdate::Skip
        },
    }
}

/// A trade in the active candle's second (its open time in seconds times
/// a thousand, up to 999 ms later) extends it, a trade in a later second
/// rolls it over, an earlier trade is skipped, and the first trade starts a
/// candle.
pub proof fn lemma_second_candle_updates(active: u64, timestamp_ms: u64)
    ensures
        second_candle_update_spec(None, timestamp_ms) == SecondCandleUpdate::Start,
        active * 1000 <= timestamp_ms < active * 1000 + 1000 ==> second_candle_update_spec(Some(active), timestamp_ms)
            == SecondCandleUpdate::Extend,
        timestamp_ms >= active * 1000 + 1000 ==> second_candle_update_spec(Some(active), timestamp_ms)
            == SecondCandleUpdate::Roll,
        timestamp_ms < active * 1000 ==> second_candle_update_spec(Some(active), timestamp_ms)
            == SecondCandleUpdate::Skip,
{
    let sec = timestamp_ms / 1000;
    assert(sec * 1000 <= timestamp_ms < sec * 1000 + 1000) by (nonlinear_arith)
        requires
            sec == timestamp_ms / 1000,
    ;
    if active * 1000 <= timestamp_ms < active * 1000 + 1000 {
        assert(sec == active) by (nonlinear_arith)
            requires
                sec * 1000 <= timestamp_ms < sec * 1000 + 1000,
                active * 1000 <= timestamp_ms < active * 1000 + 1000,
        ;
    }
    if timestamp_ms >= active * 1000 + 1000 {
        assert(active < sec) by (nonlinear_arith)
            requires
                sec * 1000 <= timestamp_ms < sec * 1000 + 1000,
                timestamp_ms >= active * 1000 + 1000,
        ;
    }
    if timestamp_ms < active * 1000 {
        assert(sec < active) by (nonlinear_arith)
            requires
                sec * 1000 <= timestamp_ms < sec * 1000 + 1000,
                timestamp_ms < active * 1000,
        ;
    }
}

} // verus!
