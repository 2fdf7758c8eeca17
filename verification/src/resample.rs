use vstd::prelude::*;
use crate::words::is_white_space;
use crate::text::{all_digits, is_digit, ascii_lower_char, is_ascii_text, leading_white, trailing_white, lowercase_str, lowercased, parse_u64_chars, parse_u64_spec, str_chars, trim_str, trimmed};

verus! {

/// `parse(s)` when it succeeds, else `default`.
pub open spec fn parse_or(s: Seq<char>, default: u64) -> int {
    match parse_u64_spec(s) {
        Some(v) => v as int,
        None => default as int,
    }
}

/// Seconds of a normalized (trimmed, lower-case) timeframe text such as
/// "15m", "1h", "4h", "1d" or "1w".  A number without unit counts as seconds;
/// an unparsable text falls back to the defaults of each unit.  The value is
/// a mathematical integer: it may exceed the 64-bit range.
pub open spec fn interval_seconds_value(t: Seq<char>) -> int {
    if t.len() > 0 && t.last() == 's' {
        parse_or(t.drop_last(), 60)
    } else if t.len() > 0 && t.last() == 'm' {
        parse_or(t.drop_last(), 15) * 60
    } else if t.len() > 0 && t.last() == 'h' {
        parse_or(t.drop_last(), 1) * 3600
    } else if t.len() > 0 && t.last() == 'd' {
        parse_or(t.drop_last(), 1) * 86400
    } else if t.len() > 0 && t.last() == 'w' {
        parse_or(t.drop_last(), 1) * 604800
    } else {
        parse_or(t, 900)
    }
}

/// The timeframe text as the conversion reads it: trimmed, then lower-cased.
pub open spec fn normalized_interval(s: Seq<char>) -> Seq<char> {
    lowercased(trimmed(s))
}

/// The white space a string starts with, and the character after it.
proof fn lemma_leading_white(s: Seq<char>)
    ensures
        leading_white(s) <= s.len(),
        forall|j: int| 0 <= j < leading_white(s) ==> is_white_space(#[trigger] s[j]),
        leading_white(s) < s.len() ==> !is_white_space(s[leading_white(s) as int]),
    decreases s.len(),
{
    if s.len() > 0 && is_white_space(s[0]) {
        let t = s.drop_first();
        lemma_leading_white(t);
        assert forall|j: int| 0 <= j < leading_white(s) implies is_white_space(#[trigger] s[j]) by {
            if j > 0 {
                assert(s[j] == t[j - 1]);
            }
        }
        if leading_white(s) < s.len() {
            assert(s[leading_white(s) as int] == t[leading_white(t) as int]);
        }
    }
}

/// The white space a string ends with, and the character before it.
proof fn lemma_trailing_white(s: Seq<char>)
    ensures
        trailing_white(s) <= s.len(),
        trailing_white(s) < s.len() ==> !is_white_space(s[s.len() - 1 - trailing_white(s)]),
    decreases s.len(),
{
    if s.len() > 0 && is_white_space(s.last()) {
        let t = s.drop_last();
        lemma_trailing_white(t);
        if trailing_white(s) < s.len() {
            assert(s[s.len() - 1 - trailing_white(s)] == t[t.len() - 1 - trailing_white(t)]);
        }
    }
}

/// A trimmed text is a piece of the text that neither starts nor ends with
/// white space.
proof fn lemma_trimmed_shape(s: Seq<char>)
    ensures
        leading_white(s) + trimmed(s).len() <= s.len(),
        forall|i: int| 0 <= i < trimmed(s).len() ==> #[trigger] trimmed(s)[i] == s[leading_white(s) + i],
        trimmed(s).len() > 0 ==> !is_white_space(trimmed(s)[0]) && !is_white_space(trimmed(s).last()),
{
    lemma_leading_white(s);
    let t = s.skip(leading_white(s) as int);
    lemma_trailing_white(t);
    let r = trimmed(s);
    if r.len() > 0 {
        assert(r[0] == t[0]);
        assert(t[0] == s[leading_white(s) as int]);
        assert(r.last() == t[t.len() - 1 - trailing_white(t)]);
    }
}

/// A text that neither starts nor ends with white space is its own trim.
proof fn lemma_trimmed_clean(s: Seq<char>)
    requires
        s.len() > 0 ==> !is_white_space(s[0]) && !is_white_space(s.last()),
    ensures
        trimmed(s) == s,
{
    assert(leading_white(s) == 0);
    assert(s.skip(0) =~= s);
    assert(trailing_white(s) == 0);
    assert(s.take(s.len() as int) =~= s);
}

/// Lower-casing an ASCII character keeps it ASCII, keeps whether it is
/// white space, and lower-casing again changes nothing.
proof fn lemma_ascii_lower_char(c: char)
    requires
        (c as u32) < 128,
    ensures
        (ascii_lower_char(c) as u32) < 128,
        is_white_space(ascii_lower_char(c)) == is_white_space(c),
        ascii_lower_char(ascii_lower_char(c)) == ascii_lower_char(c),
{
    if 65 <= (c as u32) <= 90 {
        assert((((c as u32) + 32) as char) as u32 == (c as u32) + 32);
    }
}

/// Normalizing a timeframe text twice gives what normalizing it once
/// gives, for ASCII text, so the conversion reads a normalized text as it
/// reads the original.
pub proof fn lemma_normalize_twice(s: Seq<char>)
    requires
        is_ascii_text(s),
    ensures
        normalized_interval(normalized_interval(s)) == normalized_interval(s),
        interval_seconds_value(normalized_interval(normalized_interval(s))) == interval_seconds_value(
            normalized_interval(s),
        ),
{
    let t = trimmed(s);
    lemma_trimmed_shape(s);
    lemma_leading_white(s);
    assert(is_ascii_text(t)) by {
        assert forall|i: int| 0 <= i < t.len() implies (#[trigger] t[i] as u32) < 128 by {
            assert(t[i] == s[leading_white(s) + i]);
            assert((s[leading_white(s) + i] as u32) < 128);
        }
    }
    let l = t.map_values(|c: char| ascii_lower_char(c));
    assert(normalized_interval(s) == l);
    assert forall|i: int| 0 <= i < l.len() implies (#[trigger] l[i] as u32) < 128
        && is_white_space(l[i]) == is_white_space(t[i]) && ascii_lower_char(l[i]) == l[i] by {
        assert(l[i] == ascii_lower_char(t[i]));
        lemma_ascii_lower_char(t[i]);
    }
    assert(is_ascii_text(l));
    if l.len() > 0 {
        assert(l.last() == l[l.len() - 1]);
        assert(t.last() == t[t.len() - 1]);
    }
    lemma_trimmed_clean(l);
    assert(l.map_values(|c: char| ascii_lower_char(c)) =~= l);
}

/// Seconds of a timeframe text that is already trimmed and lower-cased, or
/// `None` where they exceed the 64-bit range.
pub fn interval_seconds_checked(text: &str) -> (r: Option<u64>)
    ensures
        r is Some <==> interval_seconds_value(text@) <= u64::MAX,
        r matches Some(v) ==> v == interval_seconds_value(text@),
{
    let chars = str_chars(text);
    let t = &chars;
    let n = t.len();
    let (factor, default, end): (u64, u64, usize) = if n > 0 && t[n - 1] == 's' {
        (1, 60, n - 1)
    } else if n > 0 && t[n - 1] == 'm' {
        (60, 15, n - 1)
    } else if n > 0 && t[n - 1] == 'h' {
        (3600, 1, n - 1)
    } else if n > 0 && t[n - 1] == 'd' {
        (86400, 1, n - 1)
    } else if n > 0 && t[n - 1] == 'w' {
        (604800, 1, n - 1)
    } else {
        (1, 900, n)
    };
    let parsed = parse_u64_chars(t, 0, end);
    proof {
        if end < n {
            assert(t@.subrange(0, end as int) =~= t@.drop_last());
        } else {
            assert(t@.subrange(0, end as int) =~= t@);
        }
    }
    let count: u64 = match parsed {
        Some(v) => v,
        None => default,
    };
    count.checked_mul(factor)
}

/// Converts a timeframe text ("15m", "1h", "4h", "1d", ...) to seconds.
/// The text is trimmed and lower-cased first; the unit suffix is one of
/// s, m, h, d, w, and a text without unit is read as seconds.  Unparsable
/// counts fall back to 60 s, 15 m, 1 h, 1 d, 1 w, and 900 s without unit.
pub fn interval_to_seconds(interval: &str) -> (r: u64)
    requires
        interval_seconds_value(normalized_interval(interval@)) <= u64::MAX,
    ensures
        r == interval_seconds_value(normalized_interval(interval@)),
{
    let t = trim_str(interval);
    let lower = lowercase_str(t);
    match interval_seconds_checked(lower.as_str()) {
        Some(v) => v,
        None => 0,
    }
}

/// Converts a timeframe text to seconds as `interval_to_seconds` does, or
/// gives `None` where the count times its unit exceeds the 64-bit range.
pub fn checked_interval_to_seconds(interval: &str) -> (r: Option<u64>)
    ensures
        r is Some <==> interval_seconds_value(normalized_interval(interval@)) <= u64::MAX,
        r matches Some(v) ==> v == interval_seconds_value(normalized_interval(interval@)),
{
    let t = trim_str(interval);
    let lower = lowercase_str(t);
    match interval_seconds_checked(lower.as_str()) {
        Some(_) => Some(interval_to_seconds(interval)),
        None => None,
    }
}

/// Start of the bucket of length `step` that holds `ts`; a zero step leaves
/// the timestamp as it is.
pub open spec fn align_spec(ts: u64, step: u64) -> u64 {
    if step == 0 {
        ts
    } else {
        ((ts / step) * step) as u64
    }
}

/// Aligns a timestamp in seconds to the start of its interval bucket.
pub fn align_timestamp_sec(timestamp_sec: u64, step_sec: u64) -> (r: u64)
    ensures
        r == align_spec(timestamp_sec, step_sec),
        step_sec > 0 ==> r % step_sec == 0,
        step_sec > 0 ==> r <= timestamp_sec < r + step_sec,
{
    if step_sec == 0 {
        return timestamp_sec;
    }
    let q: u64 = timestamp_sec / step_sec;
    proof {
        vstd::arithmetic::div_mod::lemma_fundamental_div_mod(timestamp_sec as int, step_sec as int);
        vstd::arithmetic::div_mod::lemma_mod_multiples_basic(q as int, step_sec as int);
        assert(q * step_sec == step_sec * q) by (nonlinear_arith);
        assert(0 <= timestamp_sec % step_sec < step_sec);
    }
    q * step_sec
}


/// Bar open times above this bound are taken to be milliseconds.
pub const MILLIS_THRESHOLD: u64 = 10_000_000_000;

/// A bar's open time in seconds: millisecond stamps (above ten billion) are
/// divided by a thousand.
pub open spec fn normalized_open_time(t: u64) -> u64 {
    if t > MILLIS_THRESHOLD {
        (t / 1000) as u64
    } else {
        t
    }
}

/// Normalizes a bar's open time to seconds.
pub fn normalize_open_time(t: u64) -> (r: u64)
    ensures
        r == normalized_open_time(t),
{
    if t > MILLIS_THRESHOLD {
        t / 1000
    } else {
        t
    }
}

/// Position `a` comes before position `b` when ordered by key, ties broken
/// by position.
pub open spec fn key_index_before(keys: Seq<u64>, a: usize, b: usize) -> bool {
    keys[a as int] < keys[b as int] || (keys[a as int] == keys[b as int] && a < b)
}

/// `order` lists every position of `keys` once, by ascending key, equal
/// keys in input order: the result of a stable sort by key.
pub open spec fn is_stable_order(keys: Seq<u64>, order: Seq<usize>) -> bool {
    &&& order.len() == keys.len()
    &&& forall|i: int| 0 <= i < order.len() ==> #[trigger] order[i] < keys.len()
    &&& forall|i: int, j: int|
        0 <= i < j < order.len() ==> key_index_before(keys, #[trigger] order[i], #[trigger] order[j])
}

/// The positions of `keys` ordered by a stable sort on the keys.
pub fn stable_order_by_key(keys: &Vec<u64>) -> (order: Vec<usize>)
    ensures
        is_stable_order(keys@, order@),
{
    let n = keys.len();
    let mut order: Vec<usize> = Vec::new();
    let mut k: usize = 0;
    while k < n
        invariant
            k <= n == keys.len(),
            order.len() == k,
            forall|i: int| 0 <= i < order.len() ==> #[trigger] order@[i] < k,
            forall|i: int, j: int|
                0 <= i < j < order.len() ==> key_index_before(keys@, #[trigger] order@[i], #[trigger] order@[j]),
        decreases n - k,
    {
        let key = keys[k];
        let mut p: usize = 0;
        while p < order.len() && keys[order[p]] <= key
            invariant
                p <= order.len() == k,
                k < n == keys.len(),
                forall|i: int| 0 <= i < order.len() ==> #[trigger] order@[i] < k,
                forall|i: int| 0 <= i < p ==> keys@[#[trigger] order@[i] as int] <= key,
            decreases order.len() - p,
        {
            p = p + 1;
        }
        let ghost old_order = order@;
        proof {
            // every entry from p on has a larger key: the entries are sorted
            assert forall|i: int| p <= i < old_order.len() implies keys@[#[trigger] old_order[i] as int] > key by {
                if i > p {
                    assert(key_index_before(keys@, old_order[p as int], old_order[i]));
                }
            }
        }
        order.insert(p, k);
        proof {
            assert forall|i: int, j: int| 0 <= i < j < order.len() implies key_index_before(keys@, #[trigger] order@[i], #[trigger] order@[j]) by {
                if i < p && j < p {
                    assert(order@[i] == old_order[i] && order@[j] == old_order[j]);
                } else if i < p && j == p {
                    assert(order@[i] == old_order[i]);
                } else if i < p && j > p {
                    assert(order@[i] == old_order[i] && order@[j] == old_order[j - 1]);
                } else if i == p {
                    assert(order@[j] == old_order[j - 1]);
                } else {
                    assert(order@[i] == old_order[i - 1] && order@[j] == old_order[j - 1]);
                }
            }
        }
        k = k + 1;
    }
    order
}


/// One output candle of a resampling: the bucket it covers, and the run of
/// positions in the sorted bar order that fall into it.
#[derive(Debug, Clone, Copy, PartialEq, Eq, Structural)]
pub struct CandleSpan {
    pub open_time: u64,
    pub close_time: u64,
    pub first: usize,
    pub count: usize,
    pub is_closed: bool,
}

/// The bucket of each bar, taken in sorted order.
pub open spec fn sorted_buckets(keys: Seq<u64>, order: Seq<usize>, step: u64) -> Seq<u64> {
    Seq::new(order.len(), |i: int| align_spec(keys[order[i] as int], step))
}

/// The close time `open + step - 1` of a bucket stays within 64 bits.
pub open spec fn close_time_fits(open: u64, step: u64) -> bool {
    1 <= open + step <= u64::MAX
}

/// `spans` cuts `buckets` into maximal runs of equal buckets: the runs are
/// consecutive and cover every position, each run holds one bucket value,
/// neighbouring runs hold different values, each candle closes `step - 1`
/// seconds after it opens, and every candle but the last is closed.
pub open spec fn is_candle_partition(buckets: Seq<u64>, spans: Seq<CandleSpan>, step: u64) -> bool {
    &&& (buckets.len() == 0 <==> spans.len() == 0)
    &&& spans.len() > 0 ==> spans[0].first == 0
    &&& spans.len() > 0 ==> spans.last().first + spans.last().count == buckets.len()
    &&& forall|k: int|
        0 <= k < spans.len() - 1 ==> #[trigger] spans[k + 1].first == spans[k].first + spans[k].count
    &&& forall|k: int| 0 <= k < spans.len() ==> #[trigger] spans[k].count >= 1
    &&& forall|k: int|
        0 <= k < spans.len() ==> #[trigger] spans[k].first + spans[k].count <= buckets.len()
    &&& forall|k: int, j: int|
        0 <= k < spans.len() && spans[k].first <= j < spans[k].first + spans[k].count
            ==> #[trigger] buckets[j] == #[trigger] spans[k].open_time
    &&& forall|k: int|
        0 <= k < spans.len() - 1 ==> #[trigger] spans[k].open_time != spans[k + 1].open_time
    &&& forall|k: int|
        0 <= k < spans.len() ==> #[trigger] spans[k].close_time == spans[k].open_time + step - 1
    &&& forall|k: int| 0 <= k < spans.len() ==> #[trigger] spans[k].is_closed == (k < spans.len() - 1)
}

/// How a sequence of bars is resampled into higher-timeframe candles: the
/// stable order of the bars by normalized open time, and the candles as runs
/// of that order.
#[derive(Debug)]
pub struct ResamplePlan {
    pub order: Vec<usize>,
    pub candles: Vec<CandleSpan>,
}

/// Cuts the bars, sorted stably by normalized open time, into candles of
/// `step_sec` seconds.  `open_times` holds each bar's raw open time (seconds
/// or milliseconds).
pub fn plan_resample(open_times: &Vec<u64>, step_sec: u64) -> (plan: ResamplePlan)
    requires
        forall|i: int|
            0 <= i < open_times.len() ==> close_time_fits(
                align_spec(normalized_open_time(#[trigger] open_times[i]), step_sec),
                step_sec,
            ),
    ensures
        is_stable_order(open_times@.map_values(|t: u64| normalized_open_time(t)), plan.order@),
        is_candle_partition(
            sorted_buckets(
                open_times@.map_values(|t: u64| normalized_open_time(t)),
                plan.order@,
                step_sec,
            ),
            plan.candles@,
            step_sec,
        ),
{
    let n = open_times.len();
    let mut keys: Vec<u64> = Vec::new();
    let mut i: usize = 0;
    while i < n
        invariant
            i <= n == open_times.len(),
            keys.len() == i,
            forall|j: int| 0 <= j < i ==> #[trigger] keys@[j] == normalized_open_time(open_times@[j]),
        decreases n - i,
    {
        keys.push(normalize_open_time(open_times[i]));
        i = i + 1;
    }
    let ghost nkeys = open_times@.map_values(|t: u64| normalized_open_time(t));
    assert(keys@ =~= nkeys);
    let order = stable_order_by_key(&keys);
    let ghost buckets = sorted_buckets(keys@, order@, step_sec);
    let mut done: Vec<CandleSpan> = Vec::new();
    if n == 0 {
        assert(buckets.len() == 0);
        return ResamplePlan { order, candles: done };
    }
    let b0 = align_timestamp_sec(keys[order[0]], step_sec);
    assert(keys@[order@[0] as int] == normalized_open_time(open_times@[order@[0] as int]));
    assert(close_time_fits(align_spec(normalized_open_time(open_times@[order@[0] as int]), step_sec), step_sec));
    let mut cur = CandleSpan {
        open_time: b0,
        close_time: b0 + step_sec - 1,
        first: 0,
        count: 1,
        is_closed: false,
    };
    let mut pos: usize = 1;
    while pos < n
        invariant
            1 <= pos <= n == keys.len() == order.len() == open_times.len(),
            keys@ == nkeys,
            nkeys == open_times@.map_values(|t: u64| normalized_open_time(t)),
            is_stable_order(keys@, order@),
            buckets == sorted_buckets(keys@, order@, step_sec),
            forall|i: int|
                0 <= i < open_times.len() ==> close_time_fits(
                    align_spec(normalized_open_time(#[trigger] open_times[i]), step_sec),
                    step_sec,
                ),
            is_candle_partition(buckets.take(pos as int), done@.push(cur), step_sec),
        decreases n - pos,
    {
        let b = align_timestamp_sec(keys[order[pos]], step_sec);
        assert(b == buckets[pos as int]);
        assert(keys@[order@[pos as int] as int] == normalized_open_time(open_times@[order@[pos as int] as int]));
        let ghost prev = done@.push(cur);
        if b == cur.open_time {
            cur.count = cur.count + 1;
            proof {
                let next = done@.push(cur);
                let bp = buckets.take(pos + 1);
                assert forall|k: int, j: int|
                    0 <= k < next.len() && next[k].first <= j < next[k].first + next[k].count
                        implies #[trigger] bp[j] == #[trigger] next[k].open_time by {
                    if k < next.len() - 1 {
                        assert(next[k] == prev[k]);
                        assert(prev[k].first + prev[k].count <= pos);
                        assert(bp[j] == buckets.take(pos as int)[j]);
                    } else if j < pos {
                        assert(bp[j] == buckets.take(pos as int)[j]);
                        assert(prev[k].first <= j < prev[k].first + prev[k].count);
                    }
                }
                assert forall|k: int| 0 <= k < next.len() - 1 implies #[trigger] next[k + 1].first == next[k].first + next[k].count by {
                    assert(prev[k + 1].first == prev[k].first + prev[k].count);
                }
                assert forall|k: int| 0 <= k < next.len() implies #[trigger] next[k].first + next[k].count <= bp.len() by {
                    if k < next.len() - 1 {
                        assert(prev[k].first + prev[k].count <= pos);
                    }
                }
                assert forall|k: int| 0 <= k < next.len() - 1 implies #[trigger] next[k].open_time != next[k + 1].open_time by {
                    assert(prev[k].open_time != prev[k + 1].open_time);
                }
                assert forall|k: int| 0 <= k < next.len() implies #[trigger] next[k].count >= 1 by {
                    assert(prev[k].count >= 1);
                }
                assert forall|k: int| 0 <= k < next.len() implies #[trigger] next[k].close_time == next[k].open_time + step_sec - 1 by {
                    assert(prev[k].close_time == prev[k].open_time + step_sec - 1);
                }
                assert forall|k: int| 0 <= k < next.len() implies #[trigger] next[k].is_closed == (k < next.len() - 1) by {
                    assert(prev[k].is_closed == (k < prev.len() - 1));
                }
                assert(is_candle_partition(bp, next, step_sec));
            }
        } else {
            assert(close_time_fits(align_spec(normalized_open_time(open_times@[order@[pos as int] as int]), step_sec), step_sec));
            let closed = CandleSpan {
                open_time: cur.open_time,
                close_time: cur.close_time,
                first: cur.first,
                count: cur.count,
                is_closed: true,
            };
            done.push(closed);
            cur = CandleSpan {
                open_time: b,
                close_time: b + step_sec - 1,
                first: pos,
                count: 1,
                is_closed: false,
            };
            proof {
                let next = done@.push(cur);
                let bp = buckets.take(pos + 1);
                assert forall|k: int, j: int|
                    0 <= k < next.len() && next[k].first <= j < next[k].first + next[k].count
                        implies #[trigger] bp[j] == #[trigger] next[k].open_time by {
                    if k < next.len() - 1 {
                        assert(next[k].first == prev[k].first && next[k].count == prev[k].count);
                        assert(next[k].open_time == prev[k].open_time);
                        assert(prev[k].first + prev[k].count <= pos);
                        assert(bp[j] == buckets.take(pos as int)[j]);
                    }
                }
                assert forall|k: int| 0 <= k < next.len() - 1 implies #[trigger] next[k + 1].first == next[k].first + next[k].count by {
                    if k < next.len() - 2 {
                        assert(prev[k + 1].first == prev[k].first + prev[k].count);
                    }
                }
                assert forall|k: int| 0 <= k < next.len() - 1 implies #[trigger] next[k].open_time != next[k + 1].open_time by {
                    if k < next.len() - 2 {
                        assert(prev[k].open_time != prev[k + 1].open_time);
                    }
                }
                assert forall|k: int| 0 <= k < next.len() implies #[trigger] next[k].count >= 1 by {
                    if k < next.len() - 1 {
                        assert(prev[k].count >= 1);
                    }
                }
                assert forall|k: int| 0 <= k < next.len() implies #[trigger] next[k].first + next[k].count <= bp.len() by {
                    if k < next.len() - 1 {
                        assert(prev[k].first + prev[k].count <= pos);
                    }
                }
                assert forall|k: int| 0 <= k < next.len() implies #[trigger] next[k].close_time == next[k].open_time + step_sec - 1 by {
                    if k < next.len() - 1 {
                        assert(prev[k].close_time == prev[k].open_time + step_sec - 1);
                    }
                }
                assert forall|k: int| 0 <= k < next.len() implies #[trigger] next[k].is_closed == (k < next.len() - 1) by {
                    if k < next.len() - 2 {
                        assert(prev[k].is_closed == (k < prev.len() - 1));
                    }
                }
                assert(next[0].first == 0);
                assert(is_candle_partition(bp, next, step_sec));
            }
        }
        pos = pos + 1;
    }
    assert(buckets.take(n as int) =~= buckets);
    done.push(cur);
    ResamplePlan { order, candles: done }
}


/// What a new bar does to the active candle of one (symbol, timeframe).
#[derive(Debug, Clone, Copy, PartialEq, Eq, Structural)]
pub enum CandleUpdate {
    /// No active candle yet: open one for the bar's bucket.
    Start { open_time: u64, close_time: u64 },
    /// The bar falls into the active candle's bucket: fold it in.
    Extend,
    /// The bar is later than the active candle: close that candle, push it to
    /// the history and open a new one for the bar's bucket.
    Roll { open_time: u64, close_time: u64 },
    /// The bar is older than the active candle: leave everything unchanged.
    Skip,
}

/// The update a bar opening at `bar_open_time` makes to the active candle
/// of a timeframe of `step` seconds.
pub open spec fn candle_update_spec(active_open: Option<u64>, bar_open_time: u64, step: u64) -> CandleUpdate {
    let open_sec = normalized_open_time(bar_open_time);
    let bucket = align_spec(open_sec, step);
    let close = (bucket + step - 1) as u64;
    match active_open {
        None => CandleUpdate::Start { open_time: bucket, close_time: close },
        Some(a) => if a == bucket {
            CandleUpdate::Extend
        } else if open_sec > a {
            CandleUpdate::Roll { open_time: bucket, close_time: close }
        } else {
            CandleUpdate::Skip
        },
    }
}

/// Decides how a streamed bar changes the active candle of one timeframe.
pub fn candle_update(active_open: Option<u64>, bar_open_time: u64, step_sec: u64) -> (r: CandleUpdate)
    requires
        close_time_fits(align_spec(normalized_open_time(bar_open_time), step_sec), step_sec),
    ensures
        r == candle_update_spec(active_open, bar_open_time, step_sec),
{
    let open_sec = normalize_open_time(bar_open_time);
    let bucket = align_timestamp_sec(open_sec, step_sec);
    let close = bucket + step_sec - 1;
    match active_open {
        None => CandleUpdate::Start { open_time: bucket, close_time: close },
        Some(a) => if a == bucket {
            CandleUpdate::Extend
        } else if open_sec > a {
            CandleUpdate::Roll { open_time: bucket, close_time: close }
        } else {
            CandleUpdate::Skip
        },
    }
}


/// Aligning is monotone: a later timestamp never falls into an earlier
/// bucket.
pub proof fn lemma_align_monotone(a: u64, b: u64, step: u64)
    requires
        a <= b,
    ensures
        align_spec(a, step) <= align_spec(b, step),
{
    if step > 0 {
        vstd::arithmetic::div_mod::lemma_div_is_ordered(a as int, b as int, step as int);
        let qa = a / step;
        let qb = b / step;
        assert(qa * step <= qb * step) by (nonlinear_arith)
            requires
                qa <= qb,
                step > 0,
        ;
        lemma_align_bounds(a, step);
        lemma_align_bounds(b, step);
    }
}

proof fn lemma_align_bounds(t: u64, step: u64)
    requires
        step > 0,
    ensures
        (t / step) * step <= t,
        align_spec(t, step) == (t / step) * step,
{
    vstd::arithmetic::div_mod::lemma_fundamental_div_mod(t as int, step as int);
    let q = t / step;
    assert(q * step == step * q) by (nonlinear_arith);
}

/// Aligning an aligned timestamp leaves it where it is.
pub proof fn lemma_align_idempotent(t: u64, step: u64)
    ensures
        align_spec(align_spec(t, step), step) == align_spec(t, step),
{
    if step > 0 {
        lemma_align_bounds(t, step);
        let q = t / step;
        let a = (q * step) as u64;
        vstd::arithmetic::div_mod::lemma_div_multiples_vanish(q as int, step as int);
        assert(step * q == q * step) by (nonlinear_arith);
        assert(a / step == q);
    }
}

/// In a resampling, the candles open at strictly increasing times and
/// together hold every bar exactly once: each position of the sorted order
/// belongs to exactly one candle, and the bar counts add up to the number of
/// bars.
pub proof fn lemma_resample_candles_ordered(keys: Seq<u64>, order: Seq<usize>, step: u64, spans: Seq<CandleSpan>)
    requires
        is_stable_order(keys, order),
        is_candle_partition(sorted_buckets(keys, order, step), spans, step),
    ensures
        forall|k: int| 0 <= k < spans.len() - 1 ==> #[trigger] spans[k].open_time < spans[k + 1].open_time,
        forall|i: int| 0 <= i < order.len() ==> #[trigger] position_in_candle(spans, i),
        span_count_total(spans) == order.len(),
{
    let b = sorted_buckets(keys, order, step);
    assert forall|k: int| 0 <= k < spans.len() - 1 implies #[trigger] spans[k].open_time < spans[k + 1].open_time by {
        let i = spans[k].first as int;
        let j = spans[k + 1].first as int;
        assert(spans[k].count >= 1);
        assert(b[i] == spans[k].open_time);
        assert(b[j] == spans[k + 1].open_time);
        assert(key_index_before(keys, order[i], order[j]));
        lemma_align_monotone(keys[order[i] as int], keys[order[j] as int], step);
    }
    lemma_spans_cover(spans, b.len() as int, spans.len() as int);
    assert forall|i: int| 0 <= i < order.len() implies #[trigger] position_in_candle(spans, i) by {
        lemma_position_in_some_span(spans, i, spans.len() as int);
    }
}

/// Position `i` of the sorted order lies in candle `s`.
pub open spec fn span_holds(s: CandleSpan, i: int) -> bool {
    s.first <= i < s.first + s.count
}

/// Position `i` of the sorted order lies in some candle of `spans`.
pub open spec fn position_in_candle(spans: Seq<CandleSpan>, i: int) -> bool {
    exists|k: int| 0 <= k < spans.len() && #[trigger] span_holds(spans[k], i)
}

/// Total of the bar counts of the candles.
pub open spec fn span_count_total(spans: Seq<CandleSpan>) -> int
    decreases spans.len(),
{
    if spans.len() == 0 {
        0
    } else {
        span_count_total(spans.drop_last()) + spans.last().count
    }
}

proof fn lemma_spans_cover(spans: Seq<CandleSpan>, n: int, m: int)
    requires
        0 <= m <= spans.len(),
        (n == 0 <==> spans.len() == 0),
        spans.len() > 0 ==> spans[0].first == 0,
        spans.len() > 0 ==> spans.last().first + spans.last().count == n,
        forall|k: int| 0 <= k < spans.len() - 1 ==> #[trigger] spans[k + 1].first == spans[k].first + spans[k].count,
    ensures
        m == 0 ==> span_count_total(spans.take(m)) == 0,
        m > 0 ==> span_count_total(spans.take(m)) == spans[m - 1].first + spans[m - 1].count,
        m == spans.len() ==> span_count_total(spans) == n,
    decreases m,
{
    if m > 0 {
        lemma_spans_cover(spans, n, m - 1);
        assert(spans.take(m).drop_last() =~= spans.take(m - 1));
        assert(spans.take(m).last() == spans[m - 1]);
        if m > 1 {
            let k = m - 2;
            assert(spans[k + 1].first == spans[k].first + spans[k].count);
        } else {
            assert(spans.take(0) =~= Seq::<CandleSpan>::empty());
        }
    } else {
        assert(spans.take(0) =~= Seq::<CandleSpan>::empty());
    }
    if m == spans.len() {
        assert(spans.take(m) =~= spans);
    }
}

proof fn lemma_position_in_some_span(spans: Seq<CandleSpan>, i: int, m: int)
    requires
        0 < m <= spans.len(),
        0 <= i < spans[m - 1].first + spans[m - 1].count,
        spans[0].first == 0,
        forall|k: int| 0 <= k < spans.len() - 1 ==> #[trigger] spans[k + 1].first == spans[k].first + spans[k].count,
    ensures
        exists|k: int| 0 <= k < m && #[trigger] span_holds(spans[k], i),
    decreases m,
{
    if i >= spans[m - 1].first {
        assert(span_holds(spans[m - 1], i));
    } else {
        assert(m - 1 > 0);
        let k = m - 2;
        assert(spans[k + 1].first == spans[k].first + spans[k].count);
        lemma_position_in_some_span(spans, i, m - 1);
    }
}

/// A streamed bar never moves the active candle backwards: where the active
/// candle opened on a bucket boundary, a rolled-over candle opens strictly
/// later, and an extended one stays on the same bucket.
pub proof fn lemma_candle_update_moves_forward(active_open: u64, bar_open_time: u64, step: u64)
    requires
        align_spec(active_open, step) == active_open,
    ensures
        candle_update_spec(Some(active_open), bar_open_time, step) matches CandleUpdate::Roll { open_time, .. } ==> open_time > active_open,
        candle_update_spec(Some(active_open), bar_open_time, step) is Extend ==> align_spec(
            normalized_open_time(bar_open_time),
            step,
        ) == active_open,
{
    let open_sec = normalized_open_time(bar_open_time);
    if open_sec > active_open {
        lemma_align_monotone(active_open, open_sec, step);
    }
}

/// Timeframe units: a count followed by s, m, h, d or w counts seconds,
/// minutes, hours, days or weeks, and a bare count counts seconds; a count
/// that does not parse falls back to one minute, fifteen minutes, one hour,
/// one day or one week.
pub proof fn lemma_interval_units(count: Seq<char>)
    ensures
        parse_u64_spec(count) matches Some(n) ==> {
            &&& interval_seconds_value(count.push('s')) == n
            &&& interval_seconds_value(count.push('m')) == 60 * n
            &&& interval_seconds_value(count.push('h')) == 3600 * n
            &&& interval_seconds_value(count.push('d')) == 86400 * n
            &&& interval_seconds_value(count.push('w')) == 604800 * n
            &&& interval_seconds_value(count) == n
        },
        parse_u64_spec(count) is None ==> {
            &&& interval_seconds_value(count.push('s')) == 60
            &&& interval_seconds_value(count.push('m')) == 900
            &&& interval_seconds_value(count.push('h')) == 3600
            &&& interval_seconds_value(count.push('d')) == 86400
            &&& interval_seconds_value(count.push('w')) == 604800
        },
{
    assert(count.push('s').drop_last() =~= count);
    assert(count.push('m').drop_last() =~= count);
    assert(count.push('h').drop_last() =~= count);
    assert(count.push('d').drop_last() =~= count);
    assert(count.push('w').drop_last() =~= count);
    if parse_u64_spec(count) is Some {
        let body = if count.len() > 0 && count[0] == '+' {
            count.drop_first()
        } else {
            count
        };
        assert(body.len() > 0 && all_digits(body));
        assert(is_digit(body[body.len() - 1]));
        assert(count.last() == body[body.len() - 1]);
    }
}

} // verus!
