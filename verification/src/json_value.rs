use vstd::prelude::*;
use crate::text::{all_digits, digits_value, parse_u64_chars, parse_u64_spec, parse_uint_chars, parse_uint_spec, str_chars};
use crate::words::chars_equal_str;

verus! {

/// A JSON field as the payload readers see it: a non-negative integer, a
/// negative integer, a number with a fraction or exponent, a string, a
/// boolean, or anything else (null, array, object).
#[derive(Debug, Clone, PartialEq, Eq)]
pub enum JsonScalar {
    PosInt(u64),
    NegInt(i64),
    Float,
    Text(String),
    Bool(bool),
    Other,
}

/// The field as a 64-bit signed integer, where it is an integer number in
/// range.
pub open spec fn as_i64_spec(v: JsonScalar) -> Option<i64> {
    match v {
        JsonScalar::PosInt(u) => if u <= i64::MAX {
            Some(u as i64)
        } else {
            None
        },
        JsonScalar::NegInt(i) => Some(i),
        _ => None,
    }
}

/// The field as a 64-bit unsigned integer, where it is a non-negative
/// integer number.
pub open spec fn as_u64_spec(v: JsonScalar) -> Option<u64> {
    match v {
        JsonScalar::PosInt(u) => Some(u),
        _ => None,
    }
}

/// What `str::parse::<i64>` gives for a string: an optional sign followed by
/// one or more ASCII digits whose value lies in the 64-bit signed range.
pub open spec fn parse_i64_spec(s: Seq<char>) -> Option<i64> {
    if s.len() > 0 && s[0] == '-' {
        let body = s.drop_first();
        if body.len() > 0 && all_digits(body) && digits_value(body) <= 0x8000_0000_0000_0000 {
            Some((0 - digits_value(body)) as i64)
        } else {
            None
        }
    } else {
        match parse_uint_spec(s, 0x7fff_ffff_ffff_ffff) {
            Some(v) => Some(v as i64),
            None => None,
        }
    }
}

/// Parses a string the way `str::parse::<i64>` does.
pub fn parse_i64_text(s: &str) -> (r: Option<i64>)
    ensures
        r == parse_i64_spec(s@),
{
    let c = str_chars(s);
    let n = c.len();
    if n > 0 && c[0] == '-' {
        proof {
            assert(c@.subrange(1, n as int) =~= c@.drop_first());
        }
        if n > 1 && c[1] == '+' {
            assert(c@.drop_first()[0] == '+');
            assert(!crate::text::is_digit(c@.drop_first()[0]));
            assert(!all_digits(c@.drop_first()));
            return None;
        }
        match parse_uint_chars(&c, 1, n, 0x8000_0000_0000_0000) {
            Some(v) => {
                if v == 0x8000_0000_0000_0000 {
                    Some(i64::MIN)
                } else {
                    let m: i64 = v as i64;
                    Some(-m)
                }
            },
            None => None,
        }
    } else {
        proof {
            assert(c@.subrange(0, n as int) =~= c@);
        }
        match parse_uint_chars(&c, 0, n, 0x7fff_ffff_ffff_ffff) {
            Some(v) => Some(v as i64),
            None => None,
        }
    }
}

/// Parses a string the way `str::parse::<u64>` does.
pub fn parse_u64_text(s: &str) -> (r: Option<u64>)
    ensures
        r == parse_u64_spec(s@),
{
    let c = str_chars(s);
    proof {
        assert(c@.subrange(0, c.len() as int) =~= c@);
    }
    parse_u64_chars(&c, 0, c.len())
}

/// What `str::parse::<bool>` gives for a string: exactly "true" or "false".
pub open spec fn parse_bool_spec(s: Seq<char>) -> Option<bool> {
    if s == "true"@ {
        Some(true)
    } else if s == "false"@ {
        Some(false)
    } else {
        None
    }
}

/// A signed integer field: the integer itself, or the integer a string
/// spells; 0 for anything else.
pub open spec fn lenient_i64_spec(v: JsonScalar) -> i64 {
    match as_i64_spec(v) {
        Some(i) => i,
        None => match v {
            JsonScalar::Text(s) => match parse_i64_spec(s@) {
                Some(i) => i,
                None => 0,
            },
            _ => 0,
        },
    }
}

/// Reads a signed integer field leniently: numbers in range, or strings that
/// parse as one; 0 otherwise.
pub fn parse_i64(v: &JsonScalar) -> (r: i64)
    ensures
        r == lenient_i64_spec(*v),
{
    match v {
        JsonScalar::PosInt(u) => if *u <= 0x7fff_ffff_ffff_ffff {
            *u as i64
        } else {
            0
        },
        JsonScalar::NegInt(i) => *i,
        JsonScalar::Text(s) => match parse_i64_text(s.as_str()) {
            Some(i) => i,
            None => 0,
        },
        _ => 0,
    }
}

/// An unsigned integer field where there is one: a non-negative integer
/// number, or a string that parses as one.
pub open spec fn optional_u64_spec(v: JsonScalar) -> Option<u64> {
    match v {
        JsonScalar::PosInt(u) => Some(u),
        JsonScalar::Text(s) => parse_u64_spec(s@),
        _ => None,
    }
}

/// Reads an optional unsigned integer field.
pub fn parse_u64(v: &JsonScalar) -> (r: Option<u64>)
    ensures
        r == optional_u64_spec(*v),
{
    match v {
        JsonScalar::PosInt(u) => Some(*u),
        JsonScalar::Text(s) => parse_u64_text(s.as_str()),
        _ => None,
    }
}

/// An unsigned integer field read leniently: the number itself, a negative
/// integer taken modulo 2^64 (as an `as` cast does), or the integer a string
/// spells; 0 for anything else.
pub open spec fn lenient_u64_spec(v: JsonScalar) -> u64 {
    match v {
        JsonScalar::PosInt(u) => u,
        JsonScalar::NegInt(i) => if i >= 0 {
            i as u64
        } else {
            (i + 0x1_0000_0000_0000_0000) as u64
        },
        JsonScalar::Text(s) => match parse_u64_spec(s@) {
            Some(u) => u,
            None => 0,
        },
        _ => 0,
    }
}

/// Reads an unsigned integer field leniently, with 0 as the fallback.
pub fn parse_u64_or_zero(v: &JsonScalar) -> (r: u64)
    ensures
        r == lenient_u64_spec(*v),
{
    match v {
        JsonScalar::PosInt(u) => *u,
        JsonScalar::NegInt(i) => {
            let i: i64 = *i;
            if i >= 0 {
                i as u64
            } else {
                let m: u64 = (-(i + 1)) as u64;
                u64::MAX - m
            }
        },
        JsonScalar::Text(s) => match parse_u64_text(s.as_str()) {
            Some(u) => u,
            None => 0,
        },
        _ => 0,
    }
}

/// An unsigned integer field read leniently, negative integers counting as
/// 0: the number itself, or the integer a string spells; 0 for anything
/// else.
pub open spec fn clamped_u64_spec(v: JsonScalar) -> u64 {
    match v {
        JsonScalar::PosInt(u) => u,
        JsonScalar::NegInt(i) => if i >= 0 {
            i as u64
        } else {
            0
        },
        JsonScalar::Text(s) => match parse_u64_spec(s@) {
            Some(u) => u,
            None => 0,
        },
        _ => 0,
    }
}

/// Reads an unsigned integer field leniently, with negative numbers and
/// anything unreadable as 0.
pub fn parse_u64_clamped(v: &JsonScalar) -> (r: u64)
    ensures
        r == clamped_u64_spec(*v),
{
    match v {
        JsonScalar::PosInt(u) => *u,
        JsonScalar::NegInt(i) => if *i >= 0 {
            *i as u64
        } else {
            0
        },
        JsonScalar::Text(s) => match parse_u64_text(s.as_str()) {
            Some(u) => u,
            None => 0,
        },
        _ => 0,
    }
}

/// A boolean field: the boolean itself, or "true" / "false" spelled as a
/// string.
pub open spec fn optional_bool_spec(v: JsonScalar) -> Option<bool> {
    match v {
        JsonScalar::Bool(b) => Some(b),
        JsonScalar::Text(s) => parse_bool_spec(s@),
        _ => None,
    }
}

/// Reads an optional boolean field.
pub fn parse_bool(v: &JsonScalar) -> (r: Option<bool>)
    ensures
        r == optional_bool_spec(*v),
{
    match v {
        JsonScalar::Bool(b) => Some(*b),
        JsonScalar::Text(s) => {
            let c = str_chars(s.as_str());
            if chars_equal_str(&c, "true") {
                Some(true)
            } else if chars_equal_str(&c, "false") {
                Some(false)
            } else {
                None
            }
        },
        _ => None,
    }
}

/// `str::parse::<bool>` reads "true" and "false" and nothing else.
pub proof fn lemma_parse_bool_words(s: Seq<char>)
    ensures
        s == "true"@ ==> parse_bool_spec(s) == Some(true),
        s == "false"@ ==> parse_bool_spec(s) == Some(false),
        s != "true"@ && s != "false"@ ==> parse_bool_spec(s) is None,
{
    reveal_strlit("true");
    reveal_strlit("false");
    if s == "false"@ {
        assert(s.len() == 5);
    }
}

} // verus!
