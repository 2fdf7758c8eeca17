use cycle_orc::help::{GREEN, RESET};
use cycle_orc::hexdump::{
    count_non_zero, dump_row, dump_rows, peek_row, peek_rows, telemetry_ascii, telemetry_hex, TELEMETRY_PEEK_LEN,
};

#[test]
fn dump_row_layout() {
    let row = dump_row(0x1a, b"AB\x00");
    let hex = format!("{:<48}", "41 42 00");
    let ascii = format!("{:<16}", "AB.");
    assert_eq!(row, format!("  00001A: {}  |{}{}{}|", hex, GREEN, ascii, RESET));
}

#[test]
fn peek_row_layout() {
    let row = peek_row(16, b"hi\n");
    let hex = format!("{:<48}", "68 69 0A");
    assert_eq!(row, format!("  0010: {}  |hi.|", hex));
}

#[test]
fn full_row_of_sixteen_bytes_fills_the_columns() {
    let chunk: Vec<u8> = (0x30u8..0x40).collect();
    let row = peek_row(0, &chunk);
    assert_eq!(
        row,
        "  0000: 30 31 32 33 34 35 36 37 38 39 3A 3B 3C 3D 3E 3F   |0123456789:;<=>?|"
    );
}

#[test]
fn large_offsets_keep_all_digits() {
    let row = peek_row(0x12345, b"");
    assert!(row.starts_with("  12345: "));
}

#[test]
fn telemetry_previews() {
    assert_eq!(telemetry_hex(b"\x01\xff"), "01 FF ");
    assert_eq!(telemetry_ascii(b"a\x7fz"), "a.z");
    let big = vec![b'x'; 600];
    assert_eq!(telemetry_ascii(&big).len(), TELEMETRY_PEEK_LEN);
    assert_eq!(telemetry_hex(&big).len(), 3 * TELEMETRY_PEEK_LEN);
    assert_eq!(telemetry_hex(b""), "");
}

#[test]
fn dumps_are_cut_into_rows_of_sixteen() {
    let data: Vec<u8> = (0u8..40).collect();
    let rows = dump_rows(&data);
    assert_eq!(rows.len(), 3);
    assert_eq!(rows[0], dump_row(0, &data[0..16]));
    assert_eq!(rows[1], dump_row(16, &data[16..32]));
    assert_eq!(rows[2], dump_row(32, &data[32..40]));
    assert!(dump_rows(&[]).is_empty());
    assert_eq!(dump_rows(&data[..16]).len(), 1);
}

#[test]
fn peeks_show_at_most_the_asked_length() {
    let data: Vec<u8> = (0u8..40).collect();
    let rows = peek_rows(&data, 20);
    assert_eq!(rows, vec![peek_row(0, &data[0..16]), peek_row(16, &data[16..20])]);
    assert_eq!(peek_rows(&data, 64).len(), 3);
    assert!(peek_rows(&data, 0).is_empty());
}

#[test]
fn non_zero_bytes_are_counted() {
    assert_eq!(count_non_zero(&[0, 1, 0, 2, 3]), 3);
    assert_eq!(count_non_zero(&[]), 0);
}
