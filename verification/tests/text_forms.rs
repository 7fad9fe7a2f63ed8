use carrot_geyser_plugin::decimal::{append_decimal, byte_is_digit, read_decimal};
use carrot_geyser_plugin::escape::{
    append_escaped, append_escaped_byte, read_escaped, read_escaped_byte,
};

fn decimal_of(n: u64) -> String {
    let mut out: Vec<u8> = Vec::new();
    append_decimal(&mut out, n);
    String::from_utf8(out).unwrap()
}

fn escaped_of(text: &[u8]) -> Vec<u8> {
    let mut out: Vec<u8> = Vec::new();
    append_escaped(&mut out, text);
    out
}

#[test]
fn decimal_text_of_small_and_large_numbers() {
    assert_eq!(decimal_of(0), "0");
    assert_eq!(decimal_of(5), "5");
    assert_eq!(decimal_of(9), "9");
    assert_eq!(decimal_of(10), "10");
    assert_eq!(decimal_of(100), "100");
    assert_eq!(decimal_of(255), "255");
    assert_eq!(decimal_of(1_000_000_007), "1000000007");
    assert_eq!(decimal_of(u64::MAX), "18446744073709551615");
}

#[test]
fn decimal_is_appended_behind_what_is_there() {
    let mut out: Vec<u8> = vec![0x5b];
    append_decimal(&mut out, 42);
    assert_eq!(out, vec![0x5b, 0x34, 0x32]);
}

#[test]
fn digits_are_the_ten_bytes_from_zero_to_nine() {
    for b in 0..=255u8 {
        assert_eq!(byte_is_digit(b), (b'0'..=b'9').contains(&b));
    }
}

#[test]
fn read_decimal_takes_the_whole_run_of_digits() {
    assert_eq!(read_decimal(b"100,", 0, u64::MAX), Some((100, 3)));
    assert_eq!(read_decimal(b"x7}", 1, u64::MAX), Some((7, 2)));
    assert_eq!(read_decimal(b"0", 0, u64::MAX), Some((0, 1)));
    assert_eq!(read_decimal(b"0]", 0, 255), Some((0, 1)));
    assert_eq!(read_decimal(b"255]", 0, 255), Some((255, 3)));
    assert_eq!(
        read_decimal(b"18446744073709551615}", 0, u64::MAX),
        Some((u64::MAX, 20))
    );
}

#[test]
fn read_decimal_refuses_what_is_not_canonical() {
    assert_eq!(read_decimal(b"", 0, u64::MAX), None);
    assert_eq!(read_decimal(b"12", 2, u64::MAX), None);
    assert_eq!(read_decimal(b"x", 0, u64::MAX), None);
    assert_eq!(read_decimal(b"-1", 0, u64::MAX), None);
    assert_eq!(read_decimal(b"+1", 0, u64::MAX), None);
    assert_eq!(read_decimal(b"007", 0, u64::MAX), None);
    assert_eq!(read_decimal(b"00", 0, u64::MAX), None);
    assert_eq!(read_decimal(b"01,", 0, 255), None);
}

#[test]
fn read_decimal_refuses_what_is_too_large() {
    assert_eq!(read_decimal(b"256", 0, 255), None);
    assert_eq!(read_decimal(b"1000", 0, 255), None);
    assert_eq!(read_decimal(b"18446744073709551616", 0, u64::MAX), None);
    assert_eq!(read_decimal(b"99999999999999999999999", 0, u64::MAX), None);
    assert_eq!(read_decimal(b"18446744073709551615", 0, u64::MAX - 1), None);
}

#[test]
fn decimal_read_back_is_the_number() {
    for n in [0u64, 1, 9, 10, 99, 100, 12345, u64::MAX - 1, u64::MAX] {
        let mut bytes: Vec<u8> = Vec::new();
        append_decimal(&mut bytes, n);
        let len = bytes.len();
        bytes.push(b',');
        assert_eq!(read_decimal(&bytes, 0, u64::MAX), Some((n, len)));
    }
}

#[test]
fn plain_bytes_stand_for_themselves() {
    assert_eq!(escaped_of(b"abc XYZ 019"), b"abc XYZ 019".to_vec());
    assert_eq!(escaped_of(b""), Vec::<u8>::new());
    assert_eq!(escaped_of(&[0x20, 0x7e, 0x7f, 0x80, 0xff]), vec![0x20, 0x7e, 0x7f, 0x80, 0xff]);
    assert_eq!(escaped_of(b"/"), b"/".to_vec());
}

#[test]
fn quote_backslash_and_control_bytes_are_escaped() {
    assert_eq!(escaped_of(b"\""), b"\\\"".to_vec());
    assert_eq!(escaped_of(b"\\"), b"\\\\".to_vec());
    assert_eq!(escaped_of(&[0x08]), b"\\b".to_vec());
    assert_eq!(escaped_of(&[0x09]), b"\\t".to_vec());
    assert_eq!(escaped_of(&[0x0a]), b"\\n".to_vec());
    assert_eq!(escaped_of(&[0x0c]), b"\\f".to_vec());
    assert_eq!(escaped_of(&[0x0d]), b"\\r".to_vec());
    assert_eq!(escaped_of(&[0x00]), b"\\u0000".to_vec());
    assert_eq!(escaped_of(&[0x01]), b"\\u0001".to_vec());
    assert_eq!(escaped_of(&[0x0b]), b"\\u000b".to_vec());
    assert_eq!(escaped_of(&[0x1a]), b"\\u001a".to_vec());
    assert_eq!(escaped_of(&[0x1f]), b"\\u001f".to_vec());
    assert_eq!(escaped_of(b"a\"b\\c\nd"), b"a\\\"b\\\\c\\nd".to_vec());
}

#[test]
fn one_escaped_byte_is_appended() {
    let mut out: Vec<u8> = vec![b'x'];
    append_escaped_byte(&mut out, b'"');
    append_escaped_byte(&mut out, b'y');
    append_escaped_byte(&mut out, 0x1e);
    assert_eq!(out, b"x\\\"y\\u001e".to_vec());
}

#[test]
fn escaping_agrees_with_serde_json_on_every_byte_below_128() {
    for b in 0..128u8 {
        let text = String::from_utf8(vec![b'<', b, b'>']).unwrap();
        let expected = serde_json::to_string(&text).unwrap().into_bytes();
        let mut ours: Vec<u8> = vec![b'"'];
        append_escaped(&mut ours, text.as_bytes());
        ours.push(b'"');
        assert_eq!(ours, expected);
    }
}

#[test]
fn escaping_agrees_with_serde_json_on_text_outside_ascii() {
    let text = "pub\u{e9}key \u{4e2d}\u{6587} \u{1f955}";
    let expected = serde_json::to_string(text).unwrap().into_bytes();
    let mut ours: Vec<u8> = vec![b'"'];
    append_escaped(&mut ours, text.as_bytes());
    ours.push(b'"');
    assert_eq!(ours, expected);
}

#[test]
fn read_escaped_byte_reads_each_form() {
    assert_eq!(read_escaped_byte(b"a", 0), Some((b'a', 1)));
    assert_eq!(read_escaped_byte(b"\\\"", 0), Some((b'"', 2)));
    assert_eq!(read_escaped_byte(b"\\\\", 0), Some((b'\\', 2)));
    assert_eq!(read_escaped_byte(b"\\n", 0), Some((0x0a, 2)));
    assert_eq!(read_escaped_byte(b"\\t", 0), Some((0x09, 2)));
    assert_eq!(read_escaped_byte(b"\\r", 0), Some((0x0d, 2)));
    assert_eq!(read_escaped_byte(b"\\b", 0), Some((0x08, 2)));
    assert_eq!(read_escaped_byte(b"\\f", 0), Some((0x0c, 2)));
    assert_eq!(read_escaped_byte(b"\\u0001", 0), Some((0x01, 6)));
    assert_eq!(read_escaped_byte(b"\\u001f", 0), Some((0x1f, 6)));
    assert_eq!(read_escaped_byte(b"xx\\u000bz", 2), Some((0x0b, 8)));
}

#[test]
fn read_escaped_byte_refuses_other_forms() {
    assert_eq!(read_escaped_byte(b"", 0), None);
    assert_eq!(read_escaped_byte(b"\"", 0), None);
    assert_eq!(read_escaped_byte(&[0x0a], 0), None);
    assert_eq!(read_escaped_byte(&[0x1f], 0), None);
    assert_eq!(read_escaped_byte(b"\\", 0), None);
    assert_eq!(read_escaped_byte(b"\\/", 0), None);
    assert_eq!(read_escaped_byte(b"\\x", 0), None);
    assert_eq!(read_escaped_byte(b"\\u00", 0), None);
    assert_eq!(read_escaped_byte(b"\\u000a", 0), None);
    assert_eq!(read_escaped_byte(b"\\u0008", 0), None);
    assert_eq!(read_escaped_byte(b"\\u0020", 0), None);
    assert_eq!(read_escaped_byte(b"\\u0041", 0), None);
    assert_eq!(read_escaped_byte(b"\\u001F", 0), None);
    assert_eq!(read_escaped_byte(b"\\u0101", 0), None);
    assert_eq!(read_escaped_byte(b"\\u00g1", 0), None);
}

#[test]
fn read_escaped_stops_behind_the_closing_quote() {
    assert_eq!(read_escaped(b"abc\",", 0), Some((b"abc".to_vec(), 4)));
    assert_eq!(read_escaped(b"\"", 0), Some((Vec::new(), 1)));
    assert_eq!(read_escaped(b"a\\\"b\"x", 0), Some((b"a\"b".to_vec(), 5)));
    assert_eq!(read_escaped(b"..a\\nb\"", 2), Some((b"a\nb".to_vec(), 7)));
}

#[test]
fn read_escaped_refuses_text_without_end_or_with_raw_control_bytes() {
    assert_eq!(read_escaped(b"abc", 0), None);
    assert_eq!(read_escaped(b"", 0), None);
    assert_eq!(read_escaped(b"a\nb\"", 0), None);
    assert_eq!(read_escaped(b"a\\", 0), None);
    assert_eq!(read_escaped(b"a\\qb\"", 0), None);
}

#[test]
fn escaped_text_read_back_is_the_text() {
    let mut every: Vec<u8> = Vec::new();
    for b in 0..=255u8 {
        every.push(b);
    }
    let mut written = escaped_of(&every);
    let len = written.len();
    written.push(b'"');
    written.extend_from_slice(b",rest");
    assert_eq!(read_escaped(&written, 0), Some((every, len + 1)));
}

#[test]
fn reading_behind_the_end_gives_nothing() {
    assert_eq!(read_decimal(b"12", 3, u64::MAX), None);
    assert_eq!(read_decimal(b"", 1, u64::MAX), None);
    assert_eq!(read_decimal(b"12", usize::MAX, u64::MAX), None);
    assert_eq!(read_escaped_byte(b"a", 1), None);
    assert_eq!(read_escaped_byte(b"a", 2), None);
    assert_eq!(read_escaped_byte(b"a", usize::MAX), None);
    assert_eq!(read_escaped(b"a\"", 2), None);
    assert_eq!(read_escaped(b"a\"", 5), None);
    assert_eq!(read_escaped(b"a\"", usize::MAX), None);
}
