use vstd::prelude::*;
use crate::text::{decimal, digit_char, padded_decimal, push_padded_decimal, push_str_chars, string_from_chars, zero_pad};

verus! {

/// Gregorian leap year rule.
pub open spec fn is_leap_year(y: int) -> bool {
    (y % 4 == 0 && y % 100 != 0) || y % 400 == 0
}

/// Number of days in year `y`.
pub open spec fn year_length(y: int) -> int {
    if is_leap_year(y) {
        366
    } else {
        365
    }
}

/// Starting at the first day of year `y`, walk `d` days forward: the year
/// reached and the day index within that year.
pub open spec fn year_and_day(y: int, d: int) -> (int, int)
    decreases d,
{
    if d < year_length(y) {
        (y, d)
    } else {
        year_and_day(y + 1, d - year_length(y))
    }
}

/// Length of month `m` (1 to 12) in a year with the given leap flag.
pub open spec fn month_length(m: int, leap: bool) -> int {
    if m == 2 {
        if leap {
            29
        } else {
            28
        }
    } else if m == 4 || m == 6 || m == 9 || m == 11 {
        30
    } else {
        31
    }
}

/// Starting at the first day of month `m`, walk `d` days forward through the
/// months of a year: the month reached and the day index within it.  Past
/// December the walk stops at month 13.
pub open spec fn month_and_day(m: int, d: int, leap: bool) -> (int, int)
    decreases 13 - m,
{
    if m >= 13 || d < month_length(m, leap) {
        (m, d)
    } else {
        month_and_day(m + 1, d - month_length(m, leap), leap)
    }
}

/// Calendar fields of a UTC instant given in milliseconds since 1970-01-01:
/// (year, month, day of month, hour, minute).
pub open spec fn civil_fields(ts_ms: nat) -> (int, int, int, int, int) {
    let secs = ts_ms / 1000;
    let days = secs / 86400;
    let rem = secs % 86400;
    let (year, yday) = year_and_day(1970, days as int);
    let (month, mday) = month_and_day(1, yday, is_leap_year(year));
    (year, month, mday + 1, (rem / 3600) as int, ((rem % 3600) / 60) as int)
}

/// The text "YYYY-MM-DD HH:MM" of calendar fields (year, month, day,
/// hour, minute).
pub open spec fn fields_text(f: (int, int, int, int, int)) -> Seq<char> {
    padded_decimal(f.0 as nat, 4) + "-"@ + padded_decimal(f.1 as nat, 2) + "-"@ + padded_decimal(f.2 as nat, 2) + " "@
        + padded_decimal(f.3 as nat, 2) + ":"@ + padded_decimal(f.4 as nat, 2)
}

/// The text "YYYY-MM-DD HH:MM" of a UTC instant in milliseconds.
pub open spec fn minute_text(ts_ms: nat) -> Seq<char> {
    fields_text(civil_fields(ts_ms))
}

/// The text "YYYY-MM-DD HH:MM UTC" of a UTC instant in milliseconds.
pub open spec fn timestamp_text(ts_ms: nat) -> Seq<char> {
    minute_text(ts_ms) + " UTC"@
}

proof fn lemma_year_and_day_bounds(y: int, d: int)
    requires
        d >= 0,
    ensures
        year_and_day(y, d).0 >= y,
        year_and_day(y, d).0 - y <= d,
        0 <= year_and_day(y, d).1 < year_length(year_and_day(y, d).0),
    decreases d,
{
    if d >= year_length(y) {
        lemma_year_and_day_bounds(y + 1, d - year_length(y));
    }
}

/// Days in months `m` through December of a year with the given leap flag.
pub open spec fn days_from_month(m: int, leap: bool) -> int
    decreases 13 - m,
{
    if m >= 13 {
        0
    } else {
        month_length(m, leap) + days_from_month(m + 1, leap)
    }
}

proof fn lemma_month_and_day_bounds(m: int, d: int, leap: bool)
    requires
        1 <= m <= 12,
        0 <= d < days_from_month(m, leap),
    ensures
        m <= month_and_day(m, d, leap).0 <= 12,
        0 <= month_and_day(m, d, leap).1 < month_length(month_and_day(m, d, leap).0, leap),
    decreases 13 - m,
{
    if d >= month_length(m, leap) {
        if m == 12 {
            assert(days_from_month(13, leap) == 0);
        }
        lemma_month_and_day_bounds(m + 1, d - month_length(m, leap), leap);
    }
}

/// Every instant names a real calendar minute: the year is 1970 or later,
/// the month lies in 1 to 12, the day in 1 to the length of that month in
/// that year, the hour in 0 to 23 and the minute in 0 to 59.
pub proof fn lemma_civil_fields_valid(ts_ms: nat)
    ensures
        civil_fields(ts_ms).0 >= 1970,
        1 <= civil_fields(ts_ms).1 <= 12,
        1 <= civil_fields(ts_ms).2 <= month_length(civil_fields(ts_ms).1, is_leap_year(civil_fields(ts_ms).0)),
        0 <= civil_fields(ts_ms).3 < 24,
        0 <= civil_fields(ts_ms).4 < 60,
{
    let secs = ts_ms / 1000;
    let days = secs / 86400;
    lemma_year_and_day_bounds(1970, days as int);
    let (year, yday) = year_and_day(1970, days as int);
    let leap = is_leap_year(year);
    reveal_with_fuel(days_from_month, 13);
    assert(days_from_month(1, leap) == year_length(year));
    lemma_month_and_day_bounds(1, yday, leap);
}

/// The calendar fields of an instant split into whole days, hours, minutes
/// and the seconds left over.
proof fn lemma_civil_fields_split(ts_ms: nat, days: nat, hour: nat, minute: nat, sec: nat, ms: nat)
    requires
        hour < 24,
        minute < 60,
        sec < 60,
        ms < 1000,
        ts_ms == 1000 * (86400 * days + 3600 * hour + 60 * minute + sec) + ms,
    ensures
        civil_fields(ts_ms) == ({
            let (year, yday) = year_and_day(1970, days as int);
            let (month, mday) = month_and_day(1, yday, is_leap_year(year));
            (year, month, mday + 1, hour as int, minute as int)
        }),
{
    let secs = 86400 * days + 3600 * hour + 60 * minute + sec;
    let rem = 3600 * hour + 60 * minute + sec;
    assert(rem < 86400) by (nonlinear_arith)
        requires
            hour < 24,
            minute < 60,
            sec < 60,
            rem == 3600 * hour + 60 * minute + sec,
    ;
    vstd::arithmetic::div_mod::lemma_fundamental_div_mod_converse(ts_ms as int, 1000, secs as int, ms as int);
    vstd::arithmetic::div_mod::lemma_fundamental_div_mod_converse(secs as int, 86400, days as int, rem as int);
    vstd::arithmetic::div_mod::lemma_fundamental_div_mod_converse(rem as int, 3600, hour as int, (60 * minute + sec) as int);
    vstd::arithmetic::div_mod::lemma_fundamental_div_mod_converse((60 * minute + sec) as int, 60, minute as int, sec as int);
}

/// Seconds and milliseconds do not show: an instant is written as the start
/// of its minute is.
pub proof fn lemma_timestamp_drops_seconds(ts_ms: nat)
    ensures
        minute_text(ts_ms) == minute_text((ts_ms - ts_ms % 60000) as nat),
        timestamp_text(ts_ms) == timestamp_text((ts_ms - ts_ms % 60000) as nat),
{
    let t = ts_ms as int;
    let m = t / 60000;
    let r = t % 60000;
    vstd::arithmetic::div_mod::lemma_fundamental_div_mod(t, 60000);
    let days = m / 1440;
    let mm = m % 1440;
    vstd::arithmetic::div_mod::lemma_fundamental_div_mod(m, 1440);
    let hour = mm / 60;
    let minute = mm % 60;
    vstd::arithmetic::div_mod::lemma_fundamental_div_mod(mm, 60);
    let sec = r / 1000;
    let ms = r % 1000;
    vstd::arithmetic::div_mod::lemma_fundamental_div_mod(r, 1000);
    assert(0 <= m && 0 <= days && 0 <= hour < 24 && 0 <= minute < 60 && 0 <= sec < 60 && 0 <= ms < 1000) by (nonlinear_arith)
        requires
            t >= 0,
            t == 60000 * m + r,
            0 <= r < 60000,
            m == 1440 * days + mm,
            0 <= mm < 1440,
            mm == 60 * hour + minute,
            0 <= minute < 60,
            r == 1000 * sec + ms,
            0 <= ms < 1000,
    ;
    assert(t == 1000 * (86400 * days + 3600 * hour + 60 * minute + sec) + ms) by (nonlinear_arith)
        requires
            t == 60000 * m + r,
            m == 1440 * days + mm,
            mm == 60 * hour + minute,
            r == 1000 * sec + ms,
    ;
    assert(t - r == 1000 * (86400 * days + 3600 * hour + 60 * minute + 0) + 0) by (nonlinear_arith)
        requires
            t == 60000 * m + r,
            m == 1440 * days + mm,
            mm == 60 * hour + minute,
    ;
    lemma_civil_fields_split(ts_ms, days as nat, hour as nat, minute as nat, sec as nat, ms as nat);
    lemma_civil_fields_split((ts_ms - ts_ms % 60000) as nat, days as nat, hour as nat, minute as nat, 0, 0);
}

/// `a` comes strictly before `b` in dictionary order: at the first place
/// where they differ, `a` has the smaller character.
pub open spec fn text_lt(a: Seq<char>, b: Seq<char>) -> bool {
    exists|i: int|
        0 <= i < a.len() && i < b.len() && a.take(i) == b.take(i) && (#[trigger] a[i] as u32) < (b[i] as u32)
}

/// `a` comes no later than `b` in dictionary order.
pub open spec fn text_le(a: Seq<char>, b: Seq<char>) -> bool {
    a == b || text_lt(a, b)
}

/// Appending texts of one length keeps a strict order of texts of one
/// length.
proof fn lemma_lt_extend(a: Seq<char>, b: Seq<char>, c: Seq<char>, d: Seq<char>)
    requires
        text_lt(a, b),
        a.len() == b.len(),
    ensures
        text_lt(a + c, b + d),
{
    let i = choose|i: int|
        0 <= i < a.len() && i < b.len() && a.take(i) == b.take(i) && (#[trigger] a[i] as u32) < (b[i] as u32);
    assert((a + c).take(i) =~= a.take(i));
    assert((b + d).take(i) =~= b.take(i));
    assert((a + c)[i] == a[i]);
    assert((b + d)[i] == b[i]);
}

/// A common prefix keeps a strict order.
proof fn lemma_lt_after_equal(a: Seq<char>, c: Seq<char>, d: Seq<char>)
    requires
        text_lt(c, d),
    ensures
        text_lt(a + c, a + d),
{
    let i = choose|i: int|
        0 <= i < c.len() && i < d.len() && c.take(i) == d.take(i) && (#[trigger] c[i] as u32) < (d[i] as u32);
    let j = a.len() + i;
    assert((a + c).take(j) =~= a + c.take(i));
    assert((a + d).take(j) =~= a + d.take(i));
    assert((a + c)[j] == c[i]);
    assert((a + d)[j] == d[i]);
}

/// Ten to the power `w`.
pub open spec fn pow10(w: nat) -> nat
    decreases w,
{
    if w == 0 {
        1
    } else {
        10 * pow10((w - 1) as nat)
    }
}

/// Digits are ordered as their values.
proof fn lemma_digit_order(a: int, b: int)
    requires
        0 <= a < b <= 9,
    ensures
        (digit_char(a) as u32) < (digit_char(b) as u32),
{
}

/// The decimal text of a number below ten to the `w` has at most `w`
/// characters.
proof fn lemma_decimal_len(n: nat, w: nat)
    requires
        n < pow10(w),
        w >= 1,
    ensures
        decimal(n).len() <= w,
    decreases w,
{
    if n >= 10 {
        assert(n / 10 < pow10((w - 1) as nat)) by (nonlinear_arith)
            requires
                n < pow10(w),
                pow10(w) == 10 * pow10((w - 1) as nat),
        ;
        if w == 1 {
            assert(pow10(0) == 1);
        } else {
            lemma_decimal_len(n / 10, (w - 1) as nat);
        }
    }
}

/// A padded decimal splits into the padded decimal of all but its last
/// digit, followed by that digit.
proof fn lemma_padded_last_digit(n: nat, w: nat)
    requires
        w >= 2,
        n < pow10(w),
    ensures
        padded_decimal(n, w) == padded_decimal(n / 10, (w - 1) as nat) + seq![digit_char((n % 10) as int)],
        padded_decimal(n, w).len() == w,
{
    assert(n / 10 < pow10((w - 1) as nat)) by (nonlinear_arith)
        requires
            n < pow10(w),
            pow10(w) == 10 * pow10((w - 1) as nat),
    ;
    lemma_decimal_len(n, w);
    lemma_decimal_len(n / 10, (w - 1) as nat);
    if n < 10 {
        assert(decimal(n) == seq![digit_char(n as int)]);
        assert(n / 10 == 0 && n % 10 == n);
        assert(decimal(0) == seq![digit_char(0)]);
        assert(padded_decimal(n, w) =~= padded_decimal(n / 10, (w - 1) as nat) + seq![digit_char((n % 10) as int)]);
    } else {
        let q = decimal(n / 10);
        assert(decimal(n) == q.push(digit_char((n % 10) as int)));
        assert(padded_decimal(n, w) =~= padded_decimal(n / 10, (w - 1) as nat) + seq![digit_char((n % 10) as int)]);
    }
}

/// Padded decimals of one width are ordered as the numbers are.
proof fn lemma_padded_order(a: nat, b: nat, w: nat)
    requires
        w >= 1,
        a < b < pow10(w),
    ensures
        text_lt(padded_decimal(a, w), padded_decimal(b, w)),
        padded_decimal(a, w).len() == w,
        padded_decimal(b, w).len() == w,
    decreases w,
{
    if w == 1 {
        assert(pow10(1) == 10) by {
            assert(pow10(0) == 1);
        }
        assert(padded_decimal(a, 1) == seq![digit_char(a as int)]);
        assert(padded_decimal(b, 1) == seq![digit_char(b as int)]);
        lemma_digit_order(a as int, b as int);
        assert(padded_decimal(a, 1).take(0) =~= padded_decimal(b, 1).take(0));
        assert(padded_decimal(a, 1)[0] == digit_char(a as int));
    } else {
        lemma_padded_last_digit(a, w);
        lemma_padded_last_digit(b, w);
        let pa = padded_decimal(a / 10, (w - 1) as nat);
        let pb = padded_decimal(b / 10, (w - 1) as nat);
        assert(b / 10 < pow10((w - 1) as nat)) by (nonlinear_arith)
            requires
                b < pow10(w),
                pow10(w) == 10 * pow10((w - 1) as nat),
        ;
        assert(a / 10 <= b / 10) by (nonlinear_arith)
            requires
                a < b,
        ;
        if a / 10 < b / 10 {
            lemma_padded_order(a / 10, b / 10, (w - 1) as nat);
            lemma_lt_extend(pa, pb, seq![digit_char((a % 10) as int)], seq![digit_char((b % 10) as int)]);
        } else {
            assert(a % 10 < b % 10) by (nonlinear_arith)
                requires
                    a < b,
                    a / 10 == b / 10,
            ;
            lemma_digit_order((a % 10) as int, (b % 10) as int);
            let c = seq![digit_char((a % 10) as int)];
            let d = seq![digit_char((b % 10) as int)];
            assert(c.take(0) =~= d.take(0));
            assert(c[0] == digit_char((a % 10) as int));
            assert(text_lt(c, d));
            lemma_lt_after_equal(pa, c, d);
        }
    }
}

/// A padded decimal of a number below ten to the width has exactly that
/// many characters.
proof fn lemma_padded_len(n: nat, w: nat)
    requires
        w >= 1,
        n < pow10(w),
    ensures
        padded_decimal(n, w).len() == w,
{
    lemma_decimal_len(n, w);
}

/// One more separator and field keep a strict order: either the texts so
/// far are already ordered (and of one length, as the new fields are), or
/// they agree and the new fields are ordered.
proof fn lemma_text_step(p1: Seq<char>, p2: Seq<char>, sep: Seq<char>, x1: Seq<char>, x2: Seq<char>)
    requires
        (text_lt(p1, p2) && p1.len() == p2.len()) || (p1 == p2 && text_lt(x1, x2)),
    ensures
        text_lt(p1 + sep + x1, p2 + sep + x2),
{
    if text_lt(p1, p2) && p1.len() == p2.len() {
        lemma_lt_extend(p1, p2, sep, sep);
        lemma_lt_extend(p1 + sep, p2 + sep, x1, x2);
    } else {
        lemma_lt_after_equal(p1 + sep, x1, x2);
    }
}

/// Calendar fields in dictionary order.
pub open spec fn fields_lt(f: (int, int, int, int, int), g: (int, int, int, int, int)) -> bool {
    f.0 < g.0 || (f.0 == g.0 && (f.1 < g.1 || (f.1 == g.1 && (f.2 < g.2 || (f.2 == g.2 && (f.3 < g.3 || (f.3 == g.3
        && f.4 < g.4)))))))
}

/// Fields that fit their widths.
pub open spec fn fields_fit(f: (int, int, int, int, int)) -> bool {
    0 <= f.0 <= 9999 && 0 <= f.1 <= 99 && 0 <= f.2 <= 99 && 0 <= f.3 <= 99 && 0 <= f.4 <= 99
}

/// Texts of ordered fields are ordered.
proof fn lemma_fields_text_order(f: (int, int, int, int, int), g: (int, int, int, int, int))
    requires
        fields_fit(f),
        fields_fit(g),
        fields_lt(f, g),
    ensures
        text_lt(fields_text(f), fields_text(g)),
        fields_text(f).len() == fields_text(g).len(),
{
    reveal_with_fuel(pow10, 5);
    reveal_strlit("-");
    reveal_strlit(" ");
    reveal_strlit(":");
    let y1 = padded_decimal(f.0 as nat, 4);
    let y2 = padded_decimal(g.0 as nat, 4);
    let m1 = padded_decimal(f.1 as nat, 2);
    let m2 = padded_decimal(g.1 as nat, 2);
    let d1 = padded_decimal(f.2 as nat, 2);
    let d2 = padded_decimal(g.2 as nat, 2);
    let h1 = padded_decimal(f.3 as nat, 2);
    let h2 = padded_decimal(g.3 as nat, 2);
    let n1 = padded_decimal(f.4 as nat, 2);
    let n2 = padded_decimal(g.4 as nat, 2);
    lemma_padded_len(f.0 as nat, 4);
    lemma_padded_len(g.0 as nat, 4);
    lemma_padded_len(f.1 as nat, 2);
    lemma_padded_len(g.1 as nat, 2);
    lemma_padded_len(f.2 as nat, 2);
    lemma_padded_len(g.2 as nat, 2);
    lemma_padded_len(f.3 as nat, 2);
    lemma_padded_len(g.3 as nat, 2);
    lemma_padded_len(f.4 as nat, 2);
    lemma_padded_len(g.4 as nat, 2);
    let t1 = y1 + "-"@ + m1;
    let t2 = y2 + "-"@ + m2;
    let u1 = t1 + "-"@ + d1;
    let u2 = t2 + "-"@ + d2;
    let v1 = u1 + " "@ + h1;
    let v2 = u2 + " "@ + h2;
    if f.0 < g.0 {
        lemma_padded_order(f.0 as nat, g.0 as nat, 4);
        lemma_text_step(y1, y2, "-"@, m1, m2);
        lemma_text_step(t1, t2, "-"@, d1, d2);
        lemma_text_step(u1, u2, " "@, h1, h2);
        lemma_text_step(v1, v2, ":"@, n1, n2);
    } else if f.1 < g.1 {
        lemma_padded_order(f.1 as nat, g.1 as nat, 2);
        lemma_text_step(y1, y2, "-"@, m1, m2);
        lemma_text_step(t1, t2, "-"@, d1, d2);
        lemma_text_step(u1, u2, " "@, h1, h2);
        lemma_text_step(v1, v2, ":"@, n1, n2);
    } else if f.2 < g.2 {
        lemma_padded_order(f.2 as nat, g.2 as nat, 2);
        lemma_text_step(t1, t2, "-"@, d1, d2);
        lemma_text_step(u1, u2, " "@, h1, h2);
        lemma_text_step(v1, v2, ":"@, n1, n2);
    } else if f.3 < g.3 {
        lemma_padded_order(f.3 as nat, g.3 as nat, 2);
        lemma_text_step(u1, u2, " "@, h1, h2);
        lemma_text_step(v1, v2, ":"@, n1, n2);
    } else {
        lemma_padded_order(f.4 as nat, g.4 as nat, 2);
        lemma_text_step(v1, v2, ":"@, n1, n2);
    }
}

/// Later days fall in a later year, or later in the same year.
proof fn lemma_year_and_day_order(y: int, d1: int, d2: int)
    requires
        0 <= d1 < d2,
    ensures
        year_and_day(y, d1).0 < year_and_day(y, d2).0 || (year_and_day(y, d1).0 == year_and_day(y, d2).0
            && year_and_day(y, d1).1 < year_and_day(y, d2).1),
    decreases d2,
{
    if d2 >= year_length(y) {
        if d1 < year_length(y) {
            lemma_year_and_day_bounds(y + 1, d2 - year_length(y));
        } else {
            lemma_year_and_day_order(y + 1, d1 - year_length(y), d2 - year_length(y));
        }
    }
}

/// A walk through the months never goes back before its first month.
proof fn lemma_month_and_day_from(m: int, d: int, leap: bool)
    ensures
        month_and_day(m, d, leap).0 >= m,
    decreases 13 - m,
{
    if !(m >= 13 || d < month_length(m, leap)) {
        lemma_month_and_day_from(m + 1, d - month_length(m, leap), leap);
    }
}

/// Later days of a year fall in a later month, or later in the same month.
proof fn lemma_month_and_day_order(m: int, d1: int, d2: int, leap: bool)
    requires
        d1 < d2,
    ensures
        month_and_day(m, d1, leap).0 < month_and_day(m, d2, leap).0 || (month_and_day(m, d1, leap).0
            == month_and_day(m, d2, leap).0 && month_and_day(m, d1, leap).1 < month_and_day(m, d2, leap).1),
    decreases 13 - m,
{
    if !(m >= 13 || d2 < month_length(m, leap)) {
        if d1 < month_length(m, leap) {
            lemma_month_and_day_from(m + 1, d2 - month_length(m, leap), leap);
        } else {
            lemma_month_and_day_order(m + 1, d1 - month_length(m, leap), d2 - month_length(m, leap), leap);
        }
    }
}

/// The calendar fields of instants follow time: those of a later instant
/// are the same or come later in dictionary order.
proof fn lemma_civil_fields_order(t1: nat, t2: nat)
    requires
        t1 <= t2,
    ensures
        civil_fields(t1) == civil_fields(t2) || fields_lt(civil_fields(t1), civil_fields(t2)),
{
    let s1 = t1 / 1000;
    let s2 = t2 / 1000;
    assert(s1 <= s2) by (nonlinear_arith)
        requires
            t1 <= t2,
            s1 == t1 / 1000,
            s2 == t2 / 1000,
    ;
    let d1 = s1 / 86400;
    let d2 = s2 / 86400;
    assert(d1 <= d2) by (nonlinear_arith)
        requires
            s1 <= s2,
            d1 == s1 / 86400,
            d2 == s2 / 86400,
    ;
    let (y1, a1) = year_and_day(1970, d1 as int);
    let (y2, a2) = year_and_day(1970, d2 as int);
    if d1 < d2 {
        lemma_year_and_day_order(1970, d1 as int, d2 as int);
        if y1 == y2 {
            lemma_month_and_day_order(1, a1, a2, is_leap_year(y1));
        }
    } else {
        let r1 = s1 % 86400;
        let r2 = s2 % 86400;
        assert(r1 <= r2) by (nonlinear_arith)
            requires
                s1 <= s2,
                s1 / 86400 == s2 / 86400,
                r1 == s1 % 86400,
                r2 == s2 % 86400,
        {
            vstd::arithmetic::div_mod::lemma_fundamental_div_mod(s1 as int, 86400);
            vstd::arithmetic::div_mod::lemma_fundamental_div_mod(s2 as int, 86400);
        }
        let h1 = r1 / 3600;
        let h2 = r2 / 3600;
        assert(h1 <= h2) by (nonlinear_arith)
            requires
                r1 <= r2,
                h1 == r1 / 3600,
                h2 == r2 / 3600,
        ;
        if h1 == h2 {
            assert((r1 % 3600) / 60 <= (r2 % 3600) / 60) by (nonlinear_arith)
                requires
                    r1 <= r2,
                    r1 / 3600 == r2 / 3600,
            {
                vstd::arithmetic::div_mod::lemma_fundamental_div_mod(r1 as int, 3600);
                vstd::arithmetic::div_mod::lemma_fundamental_div_mod(r2 as int, 3600);
                assert(r1 % 3600 <= r2 % 3600);
            }
        }
    }
}

/// Timestamp texts follow time: the text of a later instant is the same or
/// comes later in dictionary order, for instants before 10000-01-01.
pub proof fn lemma_timestamp_text_ordered(t1: nat, t2: nat)
    requires
        t1 <= t2 < 253402300800000,
    ensures
        text_le(minute_text(t1), minute_text(t2)),
        text_le(timestamp_text(t1), timestamp_text(t2)),
{
    lemma_four_digit_years(t2);
    lemma_civil_fields_order(t1, t2);
    lemma_civil_fields_valid(t1);
    lemma_civil_fields_valid(t2);
    let f = civil_fields(t1);
    let g = civil_fields(t2);
    if f != g {
        assert(month_length(f.1, is_leap_year(f.0)) <= 31);
        assert(month_length(g.1, is_leap_year(g.0)) <= 31);
        lemma_fields_text_order(f, g);
        lemma_lt_extend(minute_text(t1), minute_text(t2), " UTC"@, " UTC"@);
    }
}

/// Days from the first day of year `y` to the first day of year `z`.
pub open spec fn days_between(y: int, z: int) -> int
    decreases z - y,
{
    if y >= z {
        0
    } else {
        year_length(y) + days_between(y + 1, z)
    }
}

/// Fewer days than lie between two years' starts stay before the later
/// year.
proof fn lemma_year_before(y: int, z: int, d: int)
    requires
        0 <= d < days_between(y, z),
    ensures
        year_and_day(y, d).0 < z,
    decreases z - y,
{
    if d >= year_length(y) {
        lemma_year_before(y + 1, z, d - year_length(y));
    }
}

/// Days between years add up over a year in between.
proof fn lemma_days_between_split(x: int, y: int, z: int)
    requires
        x <= y <= z,
    ensures
        days_between(x, z) == days_between(x, y) + days_between(y, z),
    decreases y - x,
{
    if x < y {
        lemma_days_between_split(x + 1, y, z);
    }
}

/// The leap year rule repeats every four hundred years.
proof fn lemma_leap_period(y: int)
    ensures
        is_leap_year(y + 400) == is_leap_year(y),
{
    vstd::arithmetic::div_mod::lemma_mod_multiples_vanish(100, y, 4);
    vstd::arithmetic::div_mod::lemma_mod_multiples_vanish(4, y, 100);
    vstd::arithmetic::div_mod::lemma_mod_multiples_vanish(1, y, 400);
    assert(4 * 100 + y == y + 400);
    assert(100 * 4 + y == y + 400);
    assert(400 * 1 + y == y + 400);
}

/// Days between years repeat every four hundred years.
proof fn lemma_days_between_shift(y: int, z: int)
    requires
        y <= z,
    ensures
        days_between(y + 400, z + 400) == days_between(y, z),
    decreases z - y,
{
    if y < z {
        lemma_leap_period(y);
        lemma_days_between_shift(y + 1, z);
    }
}

/// Every four hundred years after 2000 hold 146097 days.
proof fn lemma_days_in_cycles(k: int)
    requires
        k >= 0,
    ensures
        days_between(2000, 2000 + 400 * k) == 146097 * k,
    decreases k,
{
    if k == 0 {
    } else {
        let j = k - 1;
        lemma_days_in_cycles(j);
        lemma_days_between_split(2000, 2000 + 400 * j, 2000 + 400 * k);
        lemma_cycle_length(j);
    }
}

/// The four hundred years from 2000 hold 146097 days.
#[verifier::spinoff_prover]
#[verifier::rlimit(100)]
proof fn lemma_first_cycle()
    ensures
        days_between(2000, 2400) == 146097,
{
    assert(days_between(2000, 2050) == 18263) by {
        reveal_with_fuel(days_between, 51);
    }
    assert(days_between(2050, 2100) == 18262) by {
        reveal_with_fuel(days_between, 51);
    }
    assert(days_between(2100, 2150) == 18262) by {
        reveal_with_fuel(days_between, 51);
    }
    assert(days_between(2150, 2200) == 18262) by {
        reveal_with_fuel(days_between, 51);
    }
    assert(days_between(2200, 2250) == 18262) by {
        reveal_with_fuel(days_between, 51);
    }
    assert(days_between(2250, 2300) == 18262) by {
        reveal_with_fuel(days_between, 51);
    }
    assert(days_between(2300, 2350) == 18262) by {
        reveal_with_fuel(days_between, 51);
    }
    assert(days_between(2350, 2400) == 18262) by {
        reveal_with_fuel(days_between, 51);
    }
    lemma_days_between_split(2000, 2050, 2100);
    lemma_days_between_split(2000, 2100, 2150);
    lemma_days_between_split(2000, 2150, 2200);
    lemma_days_between_split(2000, 2200, 2250);
    lemma_days_between_split(2000, 2250, 2300);
    lemma_days_between_split(2000, 2300, 2350);
    lemma_days_between_split(2000, 2350, 2400);
}

/// The four hundred years from 2000 + 400 k hold 146097 days.
proof fn lemma_cycle_length(k: int)
    requires
        k >= 0,
    ensures
        days_between(2000 + 400 * k, 2400 + 400 * k) == 146097,
    decreases k,
{
    if k == 0 {
        lemma_first_cycle();
    } else {
        let j = k - 1;
        lemma_cycle_length(j);
        lemma_days_between_shift(2000 + 400 * j, 2400 + 400 * j);
    }
}

/// Instants before 10000-01-01 fall in years of four digits.
pub proof fn lemma_four_digit_years(ts_ms: nat)
    requires
        ts_ms < 253402300800000,
    ensures
        civil_fields(ts_ms).0 <= 9999,
{
    assert(days_between(1970, 2000) == 10957) by {
        reveal_with_fuel(days_between, 31);
    }
    lemma_days_in_cycles(20);
    lemma_days_between_split(1970, 2000, 10000);
    let days = ts_ms / 1000 / 86400;
    assert(days < 2932897) by (nonlinear_arith)
        requires
            ts_ms < 253402300800000,
            days == ts_ms / 1000 / 86400,
    ;
    lemma_year_before(1970, 10000, days as int);
}

/// Formats a millisecond UTC timestamp as "YYYY-MM-DD HH:MM UTC".
pub fn format_timestamp(ts_ms: u64) -> (s: String)
    ensures
        s@ == timestamp_text(ts_ms as nat),
{
    let mut out = minute_chars(ts_ms);
    push_str_chars(&mut out, " UTC");
    string_from_chars(&out)
}

/// Formats a millisecond UTC timestamp as "YYYY-MM-DD HH:MM".
pub fn format_minute(ts_ms: u64) -> (s: String)
    ensures
        s@ == minute_text(ts_ms as nat),
{
    let out = minute_chars(ts_ms);
    string_from_chars(&out)
}

/// The characters of "YYYY-MM-DD HH:MM" for a millisecond UTC timestamp.
fn minute_chars(ts_ms: u64) -> (out: Vec<char>)
    ensures
        out@ == minute_text(ts_ms as nat),
{
    let secs: u64 = ts_ms / 1000;
    let days: u64 = secs / 86400;
    let rem_secs: u64 = secs % 86400;
    let hours: u64 = rem_secs / 3600;
    let mins: u64 = (rem_secs % 3600) / 60;

    let mut year: u64 = 1970;
    let mut day_count: u64 = days;
    proof {
        lemma_year_and_day_bounds(1970, days as int);
    }
    loop
        invariant
            year >= 1970,
            year - 1970 <= days - day_count,
            day_count <= days,
            days < 0x1_0000_0000_0000,
            year_and_day(year as int, day_count as int) == year_and_day(1970, days as int),
        ensures
            day_count <= days,
            year_and_day(1970, days as int) == (year as int, day_count as int),
        decreases day_count,
    {
        let leap_len: u64 = if (year % 4 == 0 && year % 100 != 0) || (year % 400 == 0) {
            366
        } else {
            365
        };
        if day_count < leap_len {
            break;
        }
        day_count = day_count - leap_len;
        year = year + 1;
    }
    let is_leap: bool = (year % 4 == 0 && year % 100 != 0) || (year % 400 == 0);
    let feb: u64 = if is_leap { 29 } else { 28 };
    let month_days: [u64; 12] = [31, feb, 31, 30, 31, 30, 31, 31, 30, 31, 30, 31];
    let mut month: u64 = 1;
    let mut idx: usize = 0;
    while idx < 12
        invariant
            month == idx + 1,
            idx <= 12,
            day_count <= days,
            days < 0x1_0000_0000_0000,
            forall|k: int| 0 <= k < 12 ==> month_days@[k] == month_length(k + 1, is_leap),
            month_and_day(month as int, day_count as int, is_leap) == month_and_day(
                1,
                year_and_day(1970, days as int).1,
                is_leap,
            ),
        ensures
            day_count <= days,
            month_and_day(1, year_and_day(1970, days as int).1, is_leap) == (
                month as int,
                day_count as int,
            ),
        decreases 12 - idx,
    {
        let md = month_days[idx];
        if day_count < md {
            break;
        }
        day_count = day_count - md;
        month = month + 1;
        idx = idx + 1;
    }
    let day: u64 = day_count + 1;

    let mut out: Vec<char> = Vec::new();
    push_padded_decimal(&mut out, year as u128, 4);
    out.push('-');
    push_padded_decimal(&mut out, month as u128, 2);
    out.push('-');
    push_padded_decimal(&mut out, day as u128, 2);
    out.push(' ');
    push_padded_decimal(&mut out, hours as u128, 2);
    out.push(':');
    push_padded_decimal(&mut out, mins as u128, 2);
    proof {
        reveal_strlit("-");
        reveal_strlit(" ");
        reveal_strlit(":");
        assert(out@ =~= minute_text(ts_ms as nat));
    }
    out
}


/// The shell clock "HH.MM.SS.mmm.uuu.nnn" (hours shifted to UTC+3) of an
/// instant `secs` seconds and `nanos` nanoseconds after the epoch.
pub open spec fn clock_text(secs: u64, nanos: u32) -> Seq<char> {
    let hours = ((secs / 3600) % 24 + 3) % 24;
    let mins = (secs / 60) % 60;
    let seconds = secs % 60;
    let millis = nanos / 1_000_000;
    let micros = (nanos % 1_000_000) / 1_000;
    let rest = nanos % 1_000;
    padded_decimal(hours as nat, 2) + "."@ + padded_decimal(mins as nat, 2) + "."@
        + padded_decimal(seconds as nat, 2) + "."@ + padded_decimal(millis as nat, 3) + "."@
        + padded_decimal(micros as nat, 3) + "."@ + padded_decimal(rest as nat, 3)
}

/// Formats the shell clock for an instant given as whole seconds and the
/// nanoseconds past them.
pub fn format_clock(secs: u64, nanos: u32) -> (s: String)
    ensures
        s@ == clock_text(secs, nanos),
{
    let hours: u64 = ((secs / 3600) % 24 + 3) % 24;
    let mins: u64 = (secs / 60) % 60;
    let seconds: u64 = secs % 60;
    let millis: u32 = nanos / 1_000_000;
    let micros: u32 = (nanos % 1_000_000) / 1_000;
    let rest: u32 = nanos % 1_000;
    let mut out: Vec<char> = Vec::new();
    push_padded_decimal(&mut out, hours as u128, 2);
    out.push('.');
    push_padded_decimal(&mut out, mins as u128, 2);
    out.push('.');
    push_padded_decimal(&mut out, seconds as u128, 2);
    out.push('.');
    push_padded_decimal(&mut out, millis as u128, 3);
    out.push('.');
    push_padded_decimal(&mut out, micros as u128, 3);
    out.push('.');
    push_padded_decimal(&mut out, rest as u128, 3);
    proof {
        reveal_strlit(".");
        assert(out@ =~= clock_text(secs, nanos));
    }
    string_from_chars(&out)
}

} // verus!
