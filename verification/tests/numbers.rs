use keytool::bignum::{bit_width, dec_string_bytes, hex_string_bytes, normalize};

#[test]
fn decimal_of_common_public_exponent() {
    assert_eq!(dec_string_bytes(&[1, 0, 1]), "65537");
}

#[test]
fn decimal_of_zero_and_small_values() {
    assert_eq!(dec_string_bytes(&[]), "0");
    assert_eq!(dec_string_bytes(&[0, 0]), "0");
    assert_eq!(dec_string_bytes(&[7]), "7");
    assert_eq!(dec_string_bytes(&[0, 0, 7]), "7");
    assert_eq!(dec_string_bytes(&[255]), "255");
    assert_eq!(dec_string_bytes(&[0x0c, 0xa1]), "3233");
}

#[test]
fn decimal_of_a_large_value() {
    // 2^64 = 18446744073709551616
    let mut v = vec![1u8];
    v.extend(std::iter::repeat(0u8).take(8));
    assert_eq!(dec_string_bytes(&v), "18446744073709551616");
}

#[test]
fn minimal_hex_of_values() {
    assert_eq!(hex_string_bytes(&[1, 0, 1]), "10001");
    assert_eq!(hex_string_bytes(&[]), "0");
    assert_eq!(hex_string_bytes(&[0x11]), "11");
    assert_eq!(hex_string_bytes(&[0x0c, 0xa1]), "ca1");
}

#[test]
fn bit_width_of_values() {
    assert_eq!(bit_width(&[]), 0);
    assert_eq!(bit_width(&[0]), 0);
    assert_eq!(bit_width(&[1]), 1);
    assert_eq!(bit_width(&[0x80]), 8);
    assert_eq!(bit_width(&[1, 0]), 9);
    assert_eq!(bit_width(&[0x0c, 0xa1]), 12);
}

#[test]
fn normalization_keeps_one_zero_byte() {
    assert_eq!(normalize(&[]), vec![0u8]);
    assert_eq!(normalize(&[0, 0]), vec![0u8]);
    assert_eq!(normalize(&[0, 3, 0]), vec![3u8, 0u8]);
    assert_eq!(normalize(&[9, 9]), vec![9u8, 9u8]);
}
