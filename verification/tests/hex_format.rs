use keytool::hexfmt::{format_hex, format_hex_width, format_serial};

#[test]
fn zero_at_width_one_renders_as_one_padded_byte() {
    assert_eq!(format_hex_width(&[0], 1), "00");
}

#[test]
fn max_byte_at_width_one_renders_without_padding() {
    assert_eq!(format_hex_width(&[255], 1), "ff");
}

#[test]
fn zero_value_renders_as_one_byte_group() {
    assert_eq!(format_hex(&[]), "00");
    assert_eq!(format_hex(&[0]), "00");
    assert_eq!(format_hex(&[0, 0, 0]), "00");
}

#[test]
fn even_length_value_is_not_over_padded() {
    assert_eq!(format_hex(&[0x12, 0x34]), "12:34");
}

#[test]
fn leading_zero_bytes_are_stripped_before_width_derivation() {
    assert_eq!(format_hex(&[0, 0, 0x0c, 0xa1]), "0c:a1");
}

#[test]
fn odd_hex_length_pads_to_even_with_leading_zero_digit() {
    // 2^128 needs 33 hex digits; the derived width pads to 34, so the top
    // byte group carries the leading zero digit.
    let mut v = vec![1u8];
    v.extend(std::iter::repeat(0u8).take(16));
    let got = format_hex(&v);
    assert_eq!(
        got,
        "01:00:00:00:00:00:00:00:00:00:00:00:00:00:00:\n    00:00"
    );
    // 34 hex digits in 17 groups.
    assert_eq!(got.chars().filter(|c| c.is_ascii_hexdigit()).count(), 34);
}

#[test]
fn explicit_width_left_pads_with_zero_byte_groups() {
    assert_eq!(format_hex_width(&[0xff], 2), "00:ff");
    assert_eq!(format_hex_width(&[0x0c, 0xa1], 4), "00:00:0c:a1");
}

#[test]
fn twenty_byte_value_wraps_exactly_once_after_the_fifteenth_group() {
    let v: Vec<u8> = (1u8..=20).collect();
    let got = format_hex(&v);
    assert_eq!(
        got,
        "01:02:03:04:05:06:07:08:09:0a:0b:0c:0d:0e:0f:\n    10:11:12:13:14"
    );
    assert_eq!(got.matches('\n').count(), 1);
}

#[test]
fn fifteen_byte_value_has_no_trailing_break() {
    let v: Vec<u8> = (1u8..=15).collect();
    let got = format_hex(&v);
    assert_eq!(got, "01:02:03:04:05:06:07:08:09:0a:0b:0c:0d:0e:0f");
    assert_eq!(got.matches('\n').count(), 0);
}

#[test]
fn thirty_byte_value_breaks_once_thirty_one_twice() {
    let v30: Vec<u8> = (1u8..=30).collect();
    assert_eq!(format_hex(&v30).matches('\n').count(), 1);
    let v31: Vec<u8> = (1u8..=31).collect();
    let got = format_hex(&v31);
    assert_eq!(got.matches('\n').count(), 2);
    assert!(got.ends_with(":\n    1f"));
}

#[test]
fn explicit_width_wraps_like_the_derived_one() {
    let got = format_hex_width(&[1], 17);
    assert_eq!(
        got,
        "00:00:00:00:00:00:00:00:00:00:00:00:00:00:00:\n    00:01"
    );
}

#[test]
fn serial_layout_never_wraps() {
    let v: Vec<u8> = (1u8..=20).collect();
    let got = format_serial(&v);
    assert_eq!(
        got,
        "01:02:03:04:05:06:07:08:09:0a:0b:0c:0d:0e:0f:10:11:12:13:14"
    );
}

#[test]
fn serial_of_small_value_matches_key_layout() {
    assert_eq!(format_serial(&[0x0c, 0xa1]), "0c:a1");
    assert_eq!(format_serial(&[]), "00");
}
