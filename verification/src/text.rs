use vstd::prelude::*;
use crate::words::is_white_space;

verus! {

/// The character of a decimal digit.
pub open spec fn digit_char(d: int) -> char {
    if d == 0 {
        '0'
    } else if d == 1 {
        '1'
    } else if d == 2 {
        '2'
    } else if d == 3 {
        '3'
    } else if d == 4 {
        '4'
    } else if d == 5 {
        '5'
    } else if d == 6 {
        '6'
    } else if d == 7 {
        '7'
    } else if d == 8 {
        '8'
    } else {
        '9'
    }
}

/// The decimal representation of a natural number, without leading zeros.
pub open spec fn decimal(n: nat) -> Seq<char>
    decreases n,
{
    if n < 10 {
        seq![digit_char(n as int)]
    } else {
        decimal(n / 10).push(digit_char((n % 10) as int))
    }
}

/// `s` preceded by as many '0' characters as make it at least `width` long.
pub open spec fn zero_pad(s: Seq<char>, width: nat) -> Seq<char> {
    if s.len() >= width {
        s
    } else {
        Seq::new((width - s.len()) as nat, |i: int| '0') + s
    }
}

/// The decimal representation of `n`, zero padded to `width` characters.
pub open spec fn padded_decimal(n: nat, width: nat) -> Seq<char> {
    zero_pad(decimal(n), width)
}

/// The character of the decimal digit `d`.
pub fn digit_to_char(d: u128) -> (c: char)
    requires
        d < 10,
    ensures
        c == digit_char(d as int),
{
    match d {
        0 => '0',
        1 => '1',
        2 => '2',
        3 => '3',
        4 => '4',
        5 => '5',
        6 => '6',
        7 => '7',
        8 => '8',
        _ => '9',
    }
}

/// The decimal digits of `n`, most significant first.
pub fn decimal_chars(n: u128) -> (v: Vec<char>)
    ensures
        v@ == decimal(n as nat),
    decreases n,
{
    if n < 10 {
        let mut v: Vec<char> = Vec::new();
        v.push(digit_to_char(n));
        v
    } else {
        let mut v = decimal_chars(n / 10);
        v.push(digit_to_char(n % 10));
        v
    }
}

/// Appends the decimal representation of `n`, zero padded to `width`.
pub fn push_padded_decimal(out: &mut Vec<char>, n: u128, width: usize)
    ensures
        final(out)@ == old(out)@ + padded_decimal(n as nat, width as nat),
{
    let digits = decimal_chars(n);
    let ghost start = out@;
    if digits.len() < width {
        let pad: usize = width - digits.len();
        let mut i: usize = 0;
        while i < pad
            invariant
                i <= pad,
                out@ == start + Seq::new(i as nat, |k: int| '0'),
            decreases pad - i,
        {
            out.push('0');
            i = i + 1;
            assert(out@ =~= start + Seq::new(i as nat, |k: int| '0'));
        }
    }
    let ghost mid = out@;
    let mut j: usize = 0;
    while j < digits.len()
        invariant
            j <= digits.len(),
            out@ == mid + digits@.subrange(0, j as int),
        decreases digits.len() - j,
    {
        out.push(digits[j]);
        j = j + 1;
        assert(out@ =~= mid + digits@.subrange(0, j as int));
    }
    assert(digits@.subrange(0, digits.len() as int) =~= digits@);
    assert(out@ =~= start + padded_decimal(n as nat, width as nat));
}

/// Appends every character of a string slice.
pub fn push_str_chars(out: &mut Vec<char>, s: &str)
    ensures
        final(out)@ == old(out)@ + s@,
{
    let ghost start = out@;
    for c in it: s.chars()
        invariant
            out@ == start + it.seq().subrange(0, it.index() as int),
            it.seq() == s@,
    {
        out.push(c);
        assert(out@ =~= start + it.seq().subrange(0, it.index() + 1));
    }
    assert(s@.subrange(0, s@.len() as int) =~= s@);
}

/// Collects the characters into a `String` (`Iterator::collect`): the
/// string holds exactly them, in order.
#[verifier::external_body]
pub(crate) fn string_from_chars(v: &Vec<char>) -> (s: String)
    ensures
        s@ == v@,
{
    v.iter().collect::<String>()
}


/// ASCII decimal digit.
pub open spec fn is_digit(c: char) -> bool {
    '0' <= c && c <= '9'
}

/// Value of an ASCII decimal digit.
pub open spec fn digit_value(c: char) -> nat {
    (c as int - '0' as int) as nat
}

/// Every character is an ASCII decimal digit.
pub open spec fn all_digits(s: Seq<char>) -> bool {
    forall|i: int| 0 <= i < s.len() ==> is_digit(#[trigger] s[i])
}

/// The number written by a sequence of decimal digits.
pub open spec fn digits_value(s: Seq<char>) -> nat
    decreases s.len(),
{
    if s.len() == 0 {
        0
    } else {
        digits_value(s.drop_last()) * 10 + digit_value(s.last())
    }
}

/// What `str::parse` gives for an unsigned integer type whose largest value
/// is `max`: an optional '+' sign followed by one or more ASCII digits whose
/// value is at most `max`.
pub open spec fn parse_uint_spec(s: Seq<char>, max: u64) -> Option<u64> {
    let body = if s.len() > 0 && s[0] == '+' {
        s.drop_first()
    } else {
        s
    };
    if body.len() > 0 && all_digits(body) && digits_value(body) <= max {
        Some(digits_value(body) as u64)
    } else {
        None
    }
}

/// What `str::parse::<u64>` gives for a string.
pub open spec fn parse_u64_spec(s: Seq<char>) -> Option<u64> {
    parse_uint_spec(s, u64::MAX)
}

proof fn lemma_digits_value_monotone(s: Seq<char>, j: int, k: int)
    requires
        0 <= j <= k <= s.len(),
    ensures
        digits_value(s.subrange(0, j)) <= digits_value(s.subrange(0, k)),
    decreases k - j,
{
    if j < k {
        lemma_digits_value_monotone(s, j, k - 1);
        assert(s.subrange(0, k).drop_last() =~= s.subrange(0, k - 1));
    }
}

/// Parses `s[start..end]` the way `str::parse::<u64>` parses a string.
pub fn parse_u64_chars(s: &Vec<char>, start: usize, end: usize) -> (r: Option<u64>)
    requires
        start <= end <= s.len(),
    ensures
        r == parse_u64_spec(s@.subrange(start as int, end as int)),
{
    parse_uint_chars(s, start, end, u64::MAX)
}

/// Parses `s[start..end]` the way `str::parse` parses an unsigned integer
/// type whose largest value is `max`.
pub fn parse_uint_chars(s: &Vec<char>, start: usize, end: usize, max: u64) -> (r: Option<u64>)
    requires
        start <= end <= s.len(),
    ensures
        r == parse_uint_spec(s@.subrange(start as int, end as int), max),
{
    let ghost whole = s@.subrange(start as int, end as int);
    let mut first: usize = start;
    if start < end && s[start] == '+' {
        first = start + 1;
    }
    let ghost body = s@.subrange(first as int, end as int);
    assert(body =~= (if whole.len() > 0 && whole[0] == '+' { whole.drop_first() } else { whole }));
    if first == end {
        return None;
    }
    let mut i: usize = first;
    while i < end
        invariant
            first <= i <= end <= s.len(),
            first < end,
            forall|k: int| first <= k < i ==> is_digit(#[trigger] s@[k]),
            body == s@.subrange(first as int, end as int),
            whole == s@.subrange(start as int, end as int),
            body == (if whole.len() > 0 && whole[0] == '+' { whole.drop_first() } else { whole }),
        decreases end - i,
    {
        if !('0' <= s[i] && s[i] <= '9') {
            assert(!is_digit(body[i - first]));
            return None;
        }
        i = i + 1;
    }
    assert(all_digits(body));
    let mut acc: u64 = 0;
    let mut j: usize = first;
    while j < end
        invariant
            first <= j <= end <= s.len(),
            all_digits(body),
            body.len() > 0,
            body == s@.subrange(first as int, end as int),
            whole == s@.subrange(start as int, end as int),
            body == (if whole.len() > 0 && whole[0] == '+' { whole.drop_first() } else { whole }),
            acc as nat == digits_value(body.subrange(0, (j - first) as int)),
            acc <= max,
        decreases end - j,
    {
        let c = s[j];
        assert(c == body[j - first]);
        assert(is_digit(c));
        let d: u64 = (c as u32 - '0' as u32) as u64;
        assert(body.subrange(0, (j + 1 - first) as int).drop_last() =~= body.subrange(0, (j - first) as int));
        match acc.checked_mul(10) {
            Some(t) => match t.checked_add(d) {
                Some(v) if v <= max => {
                    acc = v;
                },
                _ => {
                    proof {
                        lemma_digits_value_monotone(body, (j + 1 - first) as int, body.len() as int);
                        assert(body.subrange(0, body.len() as int) =~= body);
                    }
                    return None;
                },
            },
            None => {
                proof {
                    lemma_digits_value_monotone(body, (j + 1 - first) as int, body.len() as int);
                    assert(body.subrange(0, body.len() as int) =~= body);
                }
                return None;
            },
        }
        j = j + 1;
    }
    assert(body.subrange(0, body.len() as int) =~= body);
    Some(acc)
}


/// How many white-space characters a string starts with.
pub open spec fn leading_white(s: Seq<char>) -> nat
    decreases s.len(),
{
    if s.len() > 0 && is_white_space(s[0]) {
        1 + leading_white(s.drop_first())
    } else {
        0
    }
}

/// How many white-space characters a string ends with.
pub open spec fn trailing_white(s: Seq<char>) -> nat
    decreases s.len(),
{
    if s.len() > 0 && is_white_space(s.last()) {
        1 + trailing_white(s.drop_last())
    } else {
        0
    }
}

/// What `str::trim` leaves of a string: the string without its leading and
/// trailing white space.
pub open spec fn trimmed(s: Seq<char>) -> Seq<char> {
    let t = s.skip(leading_white(s) as int);
    t.take(t.len() - trailing_white(t))
}

/// A text of ASCII characters only.
pub open spec fn is_ascii_text(s: Seq<char>) -> bool {
    forall|i: int| 0 <= i < s.len() ==> (#[trigger] s[i] as u32) < 128
}

/// The ASCII lower-case form of a character: A to Z become a to z.
pub open spec fn ascii_lower_char(c: char) -> char {
    if 65 <= (c as u32) <= 90 {
        ((c as u32) + 32) as char
    } else {
        c
    }
}

/// The ASCII upper-case form of a character: a to z become A to Z.
pub open spec fn ascii_upper_char(c: char) -> char {
    if 97 <= (c as u32) <= 122 {
        ((c as u32) - 32) as char
    } else {
        c
    }
}

/// What `str::to_lowercase` gives for a string that is not all ASCII: its
/// Unicode lower-case form.
pub uninterp spec fn unicode_lowercase(s: Seq<char>) -> Seq<char>;

/// What `str::to_uppercase` gives for a string that is not all ASCII: its
/// Unicode upper-case form.
pub uninterp spec fn unicode_uppercase(s: Seq<char>) -> Seq<char>;

/// What `str::to_lowercase` gives for a string: for ASCII text each letter
/// A to Z turned into a to z, the rest as it was; otherwise the Unicode
/// lower-case form.
pub open spec fn lowercased(s: Seq<char>) -> Seq<char> {
    if is_ascii_text(s) {
        s.map_values(|c: char| ascii_lower_char(c))
    } else {
        unicode_lowercase(s)
    }
}

/// What `str::to_uppercase` gives for a string: for ASCII text each letter
/// a to z turned into A to Z, the rest as it was; otherwise the Unicode
/// upper-case form.
pub open spec fn uppercased(s: Seq<char>) -> Seq<char> {
    if is_ascii_text(s) {
        s.map_values(|c: char| ascii_upper_char(c))
    } else {
        unicode_uppercase(s)
    }
}

/// Calls `str::to_uppercase`: on ASCII text it turns a to z into A to Z and
/// keeps every other character; any other text is named by
/// `unicode_uppercase`.
#[verifier::external_body]
pub(crate) fn uppercase_str(s: &str) -> (r: String)
    ensures
        is_ascii_text(s@) ==> r@ == s@.map_values(|c: char| ascii_upper_char(c)),
        !is_ascii_text(s@) ==> r@ == unicode_uppercase(s@),
{
    s.to_uppercase()
}

/// Calls `str::trim`, which drops the leading and trailing characters that
/// have the White_Space property.
#[verifier::external_body]
pub(crate) fn trim_str(s: &str) -> (r: &str)
    ensures
        r@ == trimmed(s@),
{
    s.trim()
}

/// Calls `str::to_lowercase`: on ASCII text it turns A to Z into a to z and
/// keeps every other character; any other text is named by
/// `unicode_lowercase`.
#[verifier::external_body]
pub(crate) fn lowercase_str(s: &str) -> (r: String)
    ensures
        is_ascii_text(s@) ==> r@ == s@.map_values(|c: char| ascii_lower_char(c)),
        !is_ascii_text(s@) ==> r@ == unicode_lowercase(s@),
{
    s.to_lowercase()
}

/// The characters of a string slice, in order.
pub fn str_chars(s: &str) -> (v: Vec<char>)
    ensures
        v@ == s@,
{
    let mut v: Vec<char> = Vec::new();
    push_str_chars(&mut v, s);
    assert(v@ =~= s@);
    v
}

/// The character of a decimal digit is the ASCII code of '0' plus the
/// digit.
pub proof fn lemma_digit_char_code(d: int)
    requires
        0 <= d <= 9,
    ensures
        digit_char(d) as u32 == 48 + d,
{
}

/// What `decimal` writes, parsing reads back: the decimal text of a number
/// is a non-empty run of digits whose value is the number, and within the
/// 64-bit range `str::parse::<u64>` gives the number again.
pub proof fn lemma_decimal_reads_back(n: nat)
    ensures
        decimal(n).len() > 0,
        all_digits(decimal(n)),
        digits_value(decimal(n)) == n,
        n <= u64::MAX ==> parse_u64_spec(decimal(n)) == Some(n as u64),
    decreases n,
{
    if n < 10 {
        lemma_digit_char_code(n as int);
        let s = decimal(n);
        assert(s.drop_last() =~= Seq::<char>::empty());
        assert(('0' as int) == 48);
        assert(digit_value(s.last()) == n);
        assert(digits_value(s.drop_last()) == 0);
        assert(digits_value(s) == digits_value(s.drop_last()) * 10 + digit_value(s.last()));
        assert(digits_value(s) == n);
        assert(is_digit(s[0]));
    } else {
        lemma_decimal_reads_back(n / 10);
        lemma_digit_char_code((n % 10) as int);
        let q = decimal(n / 10);
        let s = decimal(n);
        assert(s == q.push(digit_char((n % 10) as int)));
        assert(s.drop_last() =~= q);
        assert forall|i: int| 0 <= i < s.len() implies is_digit(#[trigger] s[i]) by {
            if i < q.len() {
                assert(s[i] == q[i]);
            }
        }
        assert(('0' as int) == 48);
        assert(digit_value(s.last()) == n % 10);
        assert(n == (n / 10) * 10 + n % 10) by (nonlinear_arith);
        assert(digits_value(s) == digits_value(q) * 10 + digit_value(s.last()));
        assert(digits_value(s) == n);
    }
    let s = decimal(n);
    if n <= u64::MAX {
        assert(s[0] != '+') by {
            assert(is_digit(s[0]));
        }
    }
}

} // verus!
