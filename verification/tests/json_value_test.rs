use cycle_orc::json_value::{
    parse_bool, parse_i64, parse_i64_text, parse_u64, parse_u64_clamped, parse_u64_or_zero, parse_u64_text, JsonScalar,
};

fn text(s: &str) -> JsonScalar {
    JsonScalar::Text(s.to_string())
}

#[test]
fn signed_text_parsing() {
    assert_eq!(parse_i64_text("42"), Some(42));
    assert_eq!(parse_i64_text("+42"), Some(42));
    assert_eq!(parse_i64_text("-42"), Some(-42));
    assert_eq!(parse_i64_text("-9223372036854775808"), Some(i64::MIN));
    assert_eq!(parse_i64_text("9223372036854775807"), Some(i64::MAX));
    assert_eq!(parse_i64_text("9223372036854775808"), None);
    assert_eq!(parse_i64_text("-+1"), None);
    assert_eq!(parse_i64_text("-"), None);
    assert_eq!(parse_i64_text(""), None);
    assert_eq!(parse_i64_text("1.5"), None);
    for s in ["0", "-0", "+7", "-17", "12x", " 1"] {
        assert_eq!(parse_i64_text(s), s.parse::<i64>().ok());
    }
}

#[test]
fn unsigned_text_parsing() {
    assert_eq!(parse_u64_text("18446744073709551615"), Some(u64::MAX));
    assert_eq!(parse_u64_text("18446744073709551616"), None);
    assert_eq!(parse_u64_text("-1"), None);
    for s in ["0", "+3", "007", "", "+", "1e3"] {
        assert_eq!(parse_u64_text(s), s.parse::<u64>().ok());
    }
}

#[test]
fn lenient_signed_fields() {
    assert_eq!(parse_i64(&JsonScalar::PosInt(7)), 7);
    assert_eq!(parse_i64(&JsonScalar::PosInt(u64::MAX)), 0);
    assert_eq!(parse_i64(&JsonScalar::NegInt(-7)), -7);
    assert_eq!(parse_i64(&text("-12")), -12);
    assert_eq!(parse_i64(&text("abc")), 0);
    assert_eq!(parse_i64(&JsonScalar::Float), 0);
    assert_eq!(parse_i64(&JsonScalar::Bool(true)), 0);
    assert_eq!(parse_i64(&JsonScalar::Other), 0);
}

#[test]
fn optional_unsigned_fields() {
    assert_eq!(parse_u64(&JsonScalar::PosInt(9)), Some(9));
    assert_eq!(parse_u64(&JsonScalar::NegInt(-9)), None);
    assert_eq!(parse_u64(&text("11")), Some(11));
    assert_eq!(parse_u64(&text("x")), None);
    assert_eq!(parse_u64(&JsonScalar::Float), None);
}

#[test]
fn lenient_unsigned_fields() {
    assert_eq!(parse_u64_or_zero(&JsonScalar::PosInt(9)), 9);
    assert_eq!(parse_u64_or_zero(&JsonScalar::NegInt(-1)), u64::MAX);
    assert_eq!(parse_u64_or_zero(&JsonScalar::NegInt(i64::MIN)), 1u64 << 63);
    assert_eq!(parse_u64_or_zero(&text("12")), 12);
    assert_eq!(parse_u64_or_zero(&text("-12")), 0);
    assert_eq!(parse_u64_or_zero(&JsonScalar::Other), 0);
}

#[test]
fn boolean_fields() {
    assert_eq!(parse_bool(&JsonScalar::Bool(false)), Some(false));
    assert_eq!(parse_bool(&text("true")), Some(true));
    assert_eq!(parse_bool(&text("false")), Some(false));
    assert_eq!(parse_bool(&text("True")), None);
    assert_eq!(parse_bool(&JsonScalar::PosInt(1)), None);
}

#[test]
fn clamped_unsigned_fields() {
    assert_eq!(parse_u64_clamped(&JsonScalar::PosInt(9)), 9);
    assert_eq!(parse_u64_clamped(&JsonScalar::NegInt(-1)), 0);
    assert_eq!(parse_u64_clamped(&text("77")), 77);
    assert_eq!(parse_u64_clamped(&text("-77")), 0);
    assert_eq!(parse_u64_clamped(&JsonScalar::Bool(true)), 0);
}
