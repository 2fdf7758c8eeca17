use vstd::prelude::*;
use crate::help::{GREEN, RESET};
use crate::text::{digit_char, push_str_chars, string_from_chars, zero_pad};

verus! {

/// Upper-case hexadecimal digit of a value below 16.
pub open spec fn hex_upper_digit(v: int) -> char {
    if v < 10 {
        digit_char(v)
    } else if v == 10 {
        'A'
    } else if v == 11 {
        'B'
    } else if v == 12 {
        'C'
    } else if v == 13 {
        'D'
    } else if v == 14 {
        'E'
    } else {
        'F'
    }
}

/// Upper-case hexadecimal representation of a natural number, without
/// leading zeros.
pub open spec fn hex_upper(n: nat) -> Seq<char>
    decreases n,
{
    if n < 16 {
        seq![hex_upper_digit(n as int)]
    } else {
        hex_upper(n / 16).push(hex_upper_digit((n % 16) as int))
    }
}

/// The two upper-case hexadecimal digits of a byte.
pub open spec fn byte_hex(b: u8) -> Seq<char> {
    seq![hex_upper_digit(b as int / 16), hex_upper_digit(b as int % 16)]
}

/// The bytes in upper-case hexadecimal, separated by single spaces.
pub open spec fn hex_bytes_text(bs: Seq<u8>) -> Seq<char>
    decreases bs.len(),
{
    if bs.len() == 0 {
        Seq::empty()
    } else if bs.len() == 1 {
        byte_hex(bs[0])
    } else {
        hex_bytes_text(bs.drop_last()) + seq![' '] + byte_hex(bs.last())
    }
}

/// Printable ASCII bytes as themselves, every other byte as '.'.
pub open spec fn ascii_char(b: u8) -> char {
    if 32 <= b && b <= 126 {
        b as char
    } else {
        '.'
    }
}

/// The ASCII column of a dump.
pub open spec fn ascii_text(bs: Seq<u8>) -> Seq<char> {
    bs.map_values(|b: u8| ascii_char(b))
}

/// `s` followed by as many spaces as make it at least `width` long.
pub open spec fn pad_right(s: Seq<char>, width: nat) -> Seq<char> {
    if s.len() >= width {
        s
    } else {
        s + Seq::new((width - s.len()) as nat, |i: int| ' ')
    }
}

/// A row of the shell's full memory dump: six-digit offset, the bytes in hex
/// padded to 48 columns, and the coloured ASCII column padded to 16.
pub open spec fn dump_row_text(offset: nat, chunk: Seq<u8>) -> Seq<char> {
    "  "@ + zero_pad(hex_upper(offset), 6) + ": "@ + pad_right(hex_bytes_text(chunk), 48) + "  |"@
        + GREEN@ + pad_right(ascii_text(chunk), 16) + RESET@ + "|"@
}

/// A row of the shell's memory peek: four-digit offset, the bytes in hex
/// padded to 48 columns, and the ASCII column.
pub open spec fn peek_row_text(offset: nat, chunk: Seq<u8>) -> Seq<char> {
    "  "@ + zero_pad(hex_upper(offset), 4) + ": "@ + pad_right(hex_bytes_text(chunk), 48) + "  |"@
        + ascii_text(chunk) + "|"@
}

/// Upper-case hexadecimal digit character of `d`.
fn hex_upper_char(d: u8) -> (c: char)
    requires
        d < 16,
    ensures
        c == hex_upper_digit(d as int),
{
    match d {
        0 => '0',
        1 => '1',
        2 => '2',
        3 => '3',
        4 => '4',
        5 => '5',
        6 => '6',
        7 => '7',
        8 => '8',
        9 => '9',
        10 => 'A',
        11 => 'B',
        12 => 'C',
        13 => 'D',
        14 => 'E',
        _ => 'F',
    }
}

/// Upper-case hexadecimal digits of `n`.
fn hex_upper_chars(n: usize) -> (v: Vec<char>)
    ensures
        v@ == hex_upper(n as nat),
    decreases n,
{
    if n < 16 {
        let mut v: Vec<char> = Vec::new();
        v.push(hex_upper_char(n as u8));
        v
    } else {
        let mut v = hex_upper_chars(n / 16);
        v.push(hex_upper_char((n % 16) as u8));
        v
    }
}

/// Appends `s`, zero padded to `width`.
fn push_zero_padded(out: &mut Vec<char>, s: &Vec<char>, width: usize)
    ensures
        final(out)@ == old(out)@ + zero_pad(s@, width as nat),
{
    let ghost start = out@;
    if s.len() < width {
        let mut i: usize = 0;
        while i < width - s.len()
            invariant
                s.len() < width,
                i <= width - s.len(),
                out@ == start + Seq::new(i as nat, |k: int| '0'),
            decreases width - s.len() - i,
        {
            out.push('0');
            i = i + 1;
            assert(out@ =~= start + Seq::new(i as nat, |k: int| '0'));
        }
    }
    let ghost mid = out@;
    let mut j: usize = 0;
    while j < s.len()
        invariant
            j <= s.len(),
            out@ == mid + s@.take(j as int),
        decreases s.len() - j,
    {
        out.push(s[j]);
        j = j + 1;
        assert(out@ =~= mid + s@.take(j as int));
    }
    assert(s@.take(s.len() as int) =~= s@);
    assert(out@ =~= start + zero_pad(s@, width as nat));
}

/// Appends `s` padded with spaces to `width`.
fn push_space_padded(out: &mut Vec<char>, s: &Vec<char>, width: usize)
    ensures
        final(out)@ == old(out)@ + pad_right(s@, width as nat),
{
    let ghost start = out@;
    let mut j: usize = 0;
    while j < s.len()
        invariant
            j <= s.len(),
            out@ == start + s@.take(j as int),
        decreases s.len() - j,
    {
        out.push(s[j]);
        j = j + 1;
        assert(out@ =~= start + s@.take(j as int));
    }
    assert(s@.take(s.len() as int) =~= s@);
    let ghost mid = out@;
    if s.len() < width {
        let mut i: usize = 0;
        while i < width - s.len()
            invariant
                s.len() < width,
                i <= width - s.len(),
                out@ == mid + Seq::new(i as nat, |k: int| ' '),
            decreases width - s.len() - i,
        {
            out.push(' ');
            i = i + 1;
            assert(out@ =~= mid + Seq::new(i as nat, |k: int| ' '));
        }
    }
    assert(out@ =~= start + pad_right(s@, width as nat));
}

/// The bytes in upper-case hex, space separated.
fn hex_bytes_chars(chunk: &[u8]) -> (v: Vec<char>)
    ensures
        v@ == hex_bytes_text(chunk@),
{
    let mut v: Vec<char> = Vec::new();
    let mut i: usize = 0;
    while i < chunk.len()
        invariant
            i <= chunk.len(),
            v@ == hex_bytes_text(chunk@.take(i as int)),
        decreases chunk.len() - i,
    {
        let b = chunk[i];
        assert(chunk@.take(i + 1).drop_last() =~= chunk@.take(i as int));
        if i > 0 {
            v.push(' ');
        }
        v.push(hex_upper_char(b / 16));
        v.push(hex_upper_char(b % 16));
        assert(v@ =~= hex_bytes_text(chunk@.take(i + 1)));
        i = i + 1;
    }
    assert(chunk@.take(chunk.len() as int) =~= chunk@);
    v
}

/// The ASCII column of the bytes.
fn ascii_chars(chunk: &[u8]) -> (v: Vec<char>)
    ensures
        v@ == ascii_text(chunk@),
{
    let mut v: Vec<char> = Vec::new();
    let mut i: usize = 0;
    while i < chunk.len()
        invariant
            i <= chunk.len(),
            v@ == ascii_text(chunk@.take(i as int)),
        decreases chunk.len() - i,
    {
        let b = chunk[i];
        let c = if 32 <= b && b <= 126 {
            b as char
        } else {
            '.'
        };
        v.push(c);
        i = i + 1;
        assert(v@ =~= ascii_text(chunk@.take(i as int)));
    }
    assert(chunk@.take(chunk.len() as int) =~= chunk@);
    v
}

/// Formats a row of the full memory dump for the bytes at `offset`.
pub fn dump_row(offset: usize, chunk: &[u8]) -> (s: String)
    ensures
        s@ == dump_row_text(offset as nat, chunk@),
{
    let mut out: Vec<char> = Vec::new();
    push_str_chars(&mut out, "  ");
    push_zero_padded(&mut out, &hex_upper_chars(offset), 6);
    push_str_chars(&mut out, ": ");
    push_space_padded(&mut out, &hex_bytes_chars(chunk), 48);
    push_str_chars(&mut out, "  |");
    push_str_chars(&mut out, GREEN);
    push_space_padded(&mut out, &ascii_chars(chunk), 16);
    push_str_chars(&mut out, RESET);
    push_str_chars(&mut out, "|");
    assert(out@ =~= dump_row_text(offset as nat, chunk@));
    string_from_chars(&out)
}

/// Formats a row of the memory peek for the bytes at `offset`.
pub fn peek_row(offset: usize, chunk: &[u8]) -> (s: String)
    ensures
        s@ == peek_row_text(offset as nat, chunk@),
{
    let mut out: Vec<char> = Vec::new();
    push_str_chars(&mut out, "  ");
    push_zero_padded(&mut out, &hex_upper_chars(offset), 4);
    push_str_chars(&mut out, ": ");
    push_space_padded(&mut out, &hex_bytes_chars(chunk), 48);
    push_str_chars(&mut out, "  |");
    let a = ascii_chars(chunk);
    let mut j: usize = 0;
    let ghost mid = out@;
    while j < a.len()
        invariant
            j <= a.len(),
            out@ == mid + a@.take(j as int),
        decreases a.len() - j,
    {
        out.push(a[j]);
        j = j + 1;
        assert(out@ =~= mid + a@.take(j as int));
    }
    assert(a@.take(a.len() as int) =~= a@);
    push_str_chars(&mut out, "|");
    assert(out@ =~= peek_row_text(offset as nat, chunk@));
    string_from_chars(&out)
}


/// The `k`-th row of sixteen bytes of `data` (the last row may be shorter).
pub open spec fn row_chunk(data: Seq<u8>, k: int) -> Seq<u8> {
    data.subrange(16 * k, if 16 * k + 16 <= data.len() { 16 * k + 16 } else { data.len() as int })
}

/// Number of rows of sixteen bytes that hold `len` bytes.
pub open spec fn row_count(len: nat) -> nat {
    (len + 15) / 16
}

/// The rows of the full memory dump of `data`, sixteen bytes each.
pub fn dump_rows(data: &[u8]) -> (rows: Vec<String>)
    ensures
        rows.len() == row_count(data@.len()),
        forall|k: int| 0 <= k < rows.len() ==> #[trigger] rows[k]@ == dump_row_text((16 * k) as nat, row_chunk(data@, k)),
{
    let n = data.len();
    let mut rows: Vec<String> = Vec::new();
    let mut start: usize = 0;
    while start < n
        invariant
            n == data.len(),
            start <= n,
            start < n ==> start == 16 * rows.len(),
            rows.len() == row_count(start as nat),
            forall|k: int| 0 <= k < rows.len() ==> #[trigger] rows[k]@ == dump_row_text((16 * k) as nat, row_chunk(data@, k)),
        decreases n - start,
    {
        let end = if n - start >= 16 { start + 16 } else { n };
        let chunk = &data[start..end];
        let ghost k = rows.len() as int;
        proof {
            assert(chunk@ =~= row_chunk(data@, k));
        }
        rows.push(dump_row(start, chunk));
        proof {
            let r = rows.len() as int;
            assert(row_count(end as nat) == r) by (nonlinear_arith)
                requires
                    start == 16 * (r - 1),
                    start < end <= start + 16,
            {
            }
        }
        start = end;
    }
    rows
}

/// The rows of the memory peek of the first `len` bytes of `data` (all of
/// them when there are fewer), sixteen bytes each.
pub fn peek_rows(data: &[u8], len: usize) -> (rows: Vec<String>)
    ensures
        rows.len() == row_count(if len < data@.len() { len as nat } else { data@.len() }),
        forall|k: int| 0 <= k < rows.len() ==> #[trigger] rows[k]@ == peek_row_text(
            (16 * k) as nat,
            row_chunk(data@.take(if len < data@.len() { len as int } else { data@.len() as int }), k),
        ),
{
    let n = if len < data.len() { len } else { data.len() };
    let ghost shown = data@.take(n as int);
    let mut rows: Vec<String> = Vec::new();
    let mut start: usize = 0;
    while start < n
        invariant
            n <= data.len(),
            shown == data@.take(n as int),
            start <= n,
            start < n ==> start == 16 * rows.len(),
            rows.len() == row_count(start as nat),
            forall|k: int| 0 <= k < rows.len() ==> #[trigger] rows[k]@ == peek_row_text((16 * k) as nat, row_chunk(shown, k)),
        decreases n - start,
    {
        let end = if n - start >= 16 { start + 16 } else { n };
        let chunk = &data[start..end];
        let ghost k = rows.len() as int;
        proof {
            assert(chunk@ =~= row_chunk(shown, k));
        }
        rows.push(peek_row(start, chunk));
        proof {
            let r = rows.len() as int;
            assert(row_count(end as nat) == r) by (nonlinear_arith)
                requires
                    start == 16 * (r - 1),
                    start < end <= start + 16,
            {
            }
        }
        start = end;
    }
    rows
}

/// How many bytes of `data` are not zero.
pub open spec fn non_zero_count(data: Seq<u8>) -> nat
    decreases data.len(),
{
    if data.len() == 0 {
        0
    } else {
        non_zero_count(data.drop_last()) + if data.last() != 0 {
            1nat
        } else {
            0nat
        }
    }
}

/// Counts the bytes of a dump that are not zero.
pub fn count_non_zero(data: &[u8]) -> (n: usize)
    ensures
        n == non_zero_count(data@),
{
    let mut n: usize = 0;
    let mut i: usize = 0;
    while i < data.len()
        invariant
            i <= data.len(),
            n <= i,
            n == non_zero_count(data@.take(i as int)),
        decreases data.len() - i,
    {
        assert(data@.take(i + 1).drop_last() =~= data@.take(i as int));
        if data[i] != 0 {
            n = n + 1;
        }
        i = i + 1;
    }
    assert(data@.take(data.len() as int) =~= data@);
    n
}

/// Bytes the web console previews of a plugin's buffer.
pub const TELEMETRY_PEEK_LEN: usize = 512;

/// Each byte in upper-case hex followed by a space.
pub open spec fn spaced_hex_text(bs: Seq<u8>) -> Seq<char>
    decreases bs.len(),
{
    if bs.len() == 0 {
        Seq::empty()
    } else {
        spaced_hex_text(bs.drop_last()) + byte_hex(bs.last()) + seq![' ']
    }
}

/// The bytes the web console previews: at most the first 512.
pub open spec fn telemetry_window(data: Seq<u8>) -> Seq<u8> {
    data.take(if data.len() < TELEMETRY_PEEK_LEN { data.len() as int } else { TELEMETRY_PEEK_LEN as int })
}

/// The hex preview the web console shows of a plugin's buffer.
pub fn telemetry_hex(data: &[u8]) -> (s: String)
    ensures
        s@ == spaced_hex_text(telemetry_window(data@)),
{
    let n = if data.len() < TELEMETRY_PEEK_LEN {
        data.len()
    } else {
        TELEMETRY_PEEK_LEN
    };
    let mut v: Vec<char> = Vec::new();
    let mut i: usize = 0;
    while i < n
        invariant
            i <= n <= data.len(),
            v@ == spaced_hex_text(data@.take(i as int)),
        decreases n - i,
    {
        let b = data[i];
        assert(data@.take(i + 1).drop_last() =~= data@.take(i as int));
        v.push(hex_upper_char(b / 16));
        v.push(hex_upper_char(b % 16));
        v.push(' ');
        i = i + 1;
        assert(v@ =~= spaced_hex_text(data@.take(i as int)));
    }
    string_from_chars(&v)
}

/// The ASCII preview the web console shows of a plugin's buffer.
pub fn telemetry_ascii(data: &[u8]) -> (s: String)
    ensures
        s@ == ascii_text(telemetry_window(data@)),
{
    let n = if data.len() < TELEMETRY_PEEK_LEN {
        data.len()
    } else {
        TELEMETRY_PEEK_LEN
    };
    let mut v: Vec<char> = Vec::new();
    let mut i: usize = 0;
    while i < n
        invariant
            i <= n <= data.len(),
            v@ == ascii_text(data@.take(i as int)),
        decreases n - i,
    {
        let b = data[i];
        let c = if 32 <= b && b <= 126 {
            b as char
        } else {
            '.'
        };
        v.push(c);
        i = i + 1;
        assert(v@ =~= ascii_text(data@.take(i as int)));
    }
    string_from_chars(&v)
}

/// Each byte of the ASCII column: printable bytes (32 to 126, the space
/// among them) as the character of that code, every other byte as '.'.
proof fn lemma_ascii_text_shows(bs: Seq<u8>)
    ensures
        ascii_text(bs).len() == bs.len(),
        forall|i: int|
            0 <= i < bs.len() ==> {
                let c = #[trigger] ascii_text(bs)[i];
                &&& (32 <= bs[i] <= 126 ==> c as u32 == bs[i] as u32)
                &&& (!(32 <= bs[i] <= 126) ==> c == '.')
            },
{
    assert forall|i: int| 0 <= i < bs.len() implies {
        let c = #[trigger] ascii_text(bs)[i];
        &&& (32 <= bs[i] <= 126 ==> c as u32 == bs[i] as u32)
        &&& (!(32 <= bs[i] <= 126) ==> c == '.')
    } by {
        let b = bs[i];
        if 32 <= b <= 126 {
            assert(((b as char) as u32) == b as u32);
        }
    }
}

/// A peek row ends with its ASCII column and a closing bar: byte `i` of the
/// chunk shows as the character of its code when it is printable (32 to
/// 126, the space among them) and as '.' otherwise.
pub proof fn lemma_peek_row_ascii_column(offset: nat, chunk: Seq<u8>)
    ensures
        ({
            let r = peek_row_text(offset, chunk);
            let n = chunk.len() as int;
            &&& r.len() >= n + 1
            &&& r.last() == '|'
            &&& forall|i: int|
                0 <= i < n ==> {
                    let c = #[trigger] r[r.len() - 1 - n + i];
                    &&& (32 <= chunk[i] <= 126 ==> c as u32 == chunk[i] as u32)
                    &&& (!(32 <= chunk[i] <= 126) ==> c == '.')
                }
        }),
{
    reveal_strlit("|");
    lemma_ascii_text_shows(chunk);
    let r = peek_row_text(offset, chunk);
    let a = ascii_text(chunk);
    let pre = "  "@ + zero_pad(hex_upper(offset), 4) + ": "@ + pad_right(hex_bytes_text(chunk), 48) + "  |"@;
    assert(r == pre + a + "|"@);
    assert forall|i: int| 0 <= i < chunk.len() implies r[r.len() - 1 - chunk.len() + i] == a[i] by {}
}

/// A dump row ends with its ASCII column, padded to 16 characters, the
/// colour reset and a closing bar: byte `i` of the chunk shows as the
/// character of its code when it is printable (32 to 126, the space among
/// them) and as '.' otherwise.
pub proof fn lemma_dump_row_ascii_column(offset: nat, chunk: Seq<u8>)
    ensures
        ({
            let r = dump_row_text(offset, chunk);
            let n = chunk.len() as int;
            let w = if n < 16 { 16 } else { n };
            &&& r.len() >= w + RESET@.len() + 1
            &&& r.last() == '|'
            &&& forall|i: int|
                0 <= i < n ==> {
                    let c = #[trigger] r[r.len() - 1 - RESET@.len() - w + i];
                    &&& (32 <= chunk[i] <= 126 ==> c as u32 == chunk[i] as u32)
                    &&& (!(32 <= chunk[i] <= 126) ==> c == '.')
                }
        }),
{
    reveal_strlit("|");
    lemma_ascii_text_shows(chunk);
    let r = dump_row_text(offset, chunk);
    let a = ascii_text(chunk);
    let p = pad_right(a, 16);
    let pre = "  "@ + zero_pad(hex_upper(offset), 6) + ": "@ + pad_right(hex_bytes_text(chunk), 48) + "  |"@ + GREEN@;
    assert(r == pre + p + RESET@ + "|"@);
    assert forall|i: int| 0 <= i < chunk.len() implies p[i] == a[i] by {}
    assert forall|i: int| 0 <= i < chunk.len() implies r[r.len() - 1 - RESET@.len() - p.len() + i] == p[i] by {}
}

/// The ASCII preview of a buffer shows its first bytes (at most 512): each
/// as the character of its code when it is printable (32 to 126, the space
/// among them) and as '.' otherwise.
pub proof fn lemma_telemetry_ascii_shows(data: Seq<u8>)
    ensures
        ({
            let s = ascii_text(telemetry_window(data));
            &&& s.len() == (if data.len() < 512 { data.len() } else { 512 })
            &&& forall|i: int|
                0 <= i < s.len() ==> {
                    let c = #[trigger] s[i];
                    &&& (32 <= data[i] <= 126 ==> c as u32 == data[i] as u32)
                    &&& (!(32 <= data[i] <= 126) ==> c == '.')
                }
        }),
{
    let w = telemetry_window(data);
    lemma_ascii_text_shows(w);
    assert forall|i: int| 0 <= i < w.len() implies w[i] == data[i] by {}
}

/// An upper-case hexadecimal digit is '0' to '9' for values below ten and
/// 'A' to 'F' for ten to fifteen, by ASCII code.
pub proof fn lemma_hex_digit_code(d: int)
    requires
        0 <= d < 16,
    ensures
        hex_upper_digit(d) as u32 == (if d < 10 {
            48 + d
        } else {
            55 + d
        }),
{
    if d < 10 {
        crate::text::lemma_digit_char_code(d);
    }
}

/// The value an upper-case hexadecimal digit character stands for ('0' to
/// '9', then 'A' to 'F'), by its ASCII code.
pub open spec fn upper_hex_value(c: char) -> int {
    if (c as u32) <= 57 {
        c as u32 - 48
    } else {
        c as u32 - 55
    }
}

/// The hex column reads back as the bytes: byte `i` is written at columns
/// `3 i` and `3 i + 1` (high digit first) and single spaces stand between
/// the bytes.
pub proof fn lemma_hex_column_reads_back(bs: Seq<u8>)
    ensures
        bs.len() > 0 ==> hex_bytes_text(bs).len() == 3 * bs.len() - 1,
        forall|i: int|
            0 <= i < bs.len() ==> upper_hex_value(#[trigger] hex_bytes_text(bs)[3 * i]) * 16 + upper_hex_value(
                hex_bytes_text(bs)[3 * i + 1],
            ) == bs[i] as int,
        forall|i: int| 0 <= i < bs.len() - 1 ==> #[trigger] hex_bytes_text(bs)[3 * i + 2] == ' ',
    decreases bs.len(),
{
    if bs.len() > 0 {
        let init = bs.drop_last();
        lemma_hex_column_reads_back(init);
        let b = bs.last();
        lemma_hex_digit_code(b as int / 16);
        lemma_hex_digit_code(b as int % 16);
        let h = hex_bytes_text(bs);
        let hi = hex_bytes_text(init);
        assert(byte_hex(b)[0] == hex_upper_digit(b as int / 16));
        assert(byte_hex(b)[1] == hex_upper_digit(b as int % 16));
        assert forall|i: int| 0 <= i < bs.len() implies upper_hex_value(#[trigger] h[3 * i]) * 16 + upper_hex_value(
            h[3 * i + 1],
        ) == bs[i] as int by {
            if i < init.len() {
                assert(h[3 * i] == hi[3 * i]);
                assert(h[3 * i + 1] == hi[3 * i + 1]);
                assert(init[i] == bs[i]);
            } else {
                assert(h[3 * i] == byte_hex(b)[0]);
                assert(h[3 * i + 1] == byte_hex(b)[1]);
                assert(b as int == (b as int / 16) * 16 + b as int % 16);
            }
        }
        assert forall|i: int| 0 <= i < bs.len() - 1 implies #[trigger] h[3 * i + 2] == ' ' by {
            if i < init.len() - 1 {
                assert(h[3 * i + 2] == hi[3 * i + 2]);
            }
        }
    }
}

/// The hex preview reads back as the bytes: byte `i` is written at columns
/// `3 i` and `3 i + 1` (high digit first), each followed by a space.
pub proof fn lemma_spaced_hex_reads_back(bs: Seq<u8>)
    ensures
        spaced_hex_text(bs).len() == 3 * bs.len(),
        forall|i: int|
            0 <= i < bs.len() ==> upper_hex_value(#[trigger] spaced_hex_text(bs)[3 * i]) * 16 + upper_hex_value(
                spaced_hex_text(bs)[3 * i + 1],
            ) == bs[i] as int,
        forall|i: int| 0 <= i < bs.len() ==> #[trigger] spaced_hex_text(bs)[3 * i + 2] == ' ',
    decreases bs.len(),
{
    if bs.len() > 0 {
        let init = bs.drop_last();
        lemma_spaced_hex_reads_back(init);
        let b = bs.last();
        lemma_hex_digit_code(b as int / 16);
        lemma_hex_digit_code(b as int % 16);
        let h = spaced_hex_text(bs);
        let hi = spaced_hex_text(init);
        assert(byte_hex(b)[0] == hex_upper_digit(b as int / 16));
        assert(byte_hex(b)[1] == hex_upper_digit(b as int % 16));
        assert forall|i: int| 0 <= i < bs.len() implies upper_hex_value(#[trigger] h[3 * i]) * 16 + upper_hex_value(
            h[3 * i + 1],
        ) == bs[i] as int by {
            if i < init.len() {
                assert(h[3 * i] == hi[3 * i]);
                assert(h[3 * i + 1] == hi[3 * i + 1]);
                assert(h[3 * i + 2] == hi[3 * i + 2]);
                assert(init[i] == bs[i]);
            } else {
                assert(h[3 * i] == byte_hex(b)[0]);
                assert(h[3 * i + 1] == byte_hex(b)[1]);
                assert(b as int == (b as int / 16) * 16 + b as int % 16);
            }
        }
        assert forall|i: int| 0 <= i < bs.len() implies #[trigger] h[3 * i + 2] == ' ' by {
            if i < init.len() {
                assert(h[3 * i + 2] == hi[3 * i + 2]);
            }
        }
    }
}

} // verus!
