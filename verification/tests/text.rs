use sosistab2_obfsws::encoding::{u64_from_be, u64_to_be};
use sosistab2_obfsws::text::{
    byte_list, ipv4, ipv6, join, push_decimal, push_decimals, push_hexadecimal, push_segments,
};

fn segments(s: [u16; 8]) -> String {
    let mut address = [0u8; 16];
    for i in 0..8 {
        address[2 * i] = (s[i] >> 8) as u8;
        address[2 * i + 1] = s[i] as u8;
    }
    ipv6(&address)
}

#[test]
fn numbers_are_written_without_leading_zeros() {
    let mut text = "x".to_string();
    push_decimal(&mut text, 0);
    push_decimal(&mut text, 1050);
    push_decimal(&mut text, u64::MAX);
    assert_eq!(text, "x0105018446744073709551615");
    let mut text = String::new();
    push_hexadecimal(&mut text, 0);
    push_hexadecimal(&mut text, 0xbe0f);
    assert_eq!(text, "0be0f");
}

#[test]
fn lists_are_written_with_separators() {
    assert_eq!(byte_list(&[]), "[]");
    assert_eq!(byte_list(&[7]), "[7]");
    assert_eq!(byte_list(&[0, 255, 10]), "[0, 255, 10]");
    let mut text = String::new();
    push_decimals(&mut text, &[1, 2], "--");
    assert_eq!(text, "1--2");
    let mut text = String::new();
    push_segments(&mut text, &[1, 0xff]);
    assert_eq!(text, "1:ff");
    assert_eq!(join(&["a".to_string(), "".to_string(), "b".to_string()], ", "), "a, , b");
    assert_eq!(join(&[], ", "), "");
}

#[test]
fn ipv4_addresses_are_dotted() {
    assert_eq!(ipv4(&[0, 0, 0, 0]), "0.0.0.0");
    assert_eq!(ipv4(&[255, 10, 1, 200]), "255.10.1.200");
}

#[test]
fn ipv6_addresses_leave_out_the_longest_run_of_zeros() {
    assert_eq!(segments([0, 0, 0, 0, 0, 0, 0, 0]), "::");
    assert_eq!(segments([0, 0, 0, 0, 0, 0, 0, 1]), "::1");
    assert_eq!(segments([1, 0, 0, 0, 0, 0, 0, 0]), "1::");
    assert_eq!(segments([0x2001, 0xdb8, 0, 0, 0, 0, 0, 1]), "2001:db8::1");
    assert_eq!(segments([1, 0, 0, 2, 0, 0, 0, 3]), "1:0:0:2::3");
    assert_eq!(segments([1, 2, 3, 4, 5, 6, 0, 0]), "1:2:3:4:5:6::");
    assert_eq!(segments([0, 0, 3, 4, 5, 6, 7, 8]), "::3:4:5:6:7:8");
}

#[test]
fn the_first_of_two_runs_is_left_out() {
    assert_eq!(segments([1, 0, 0, 2, 3, 0, 0, 4]), "1::2:3:0:0:4");
}

#[test]
fn a_single_zero_is_written() {
    assert_eq!(segments([0x2001, 0xdb8, 0, 1, 1, 1, 1, 1]), "2001:db8:0:1:1:1:1:1");
    assert_eq!(segments([1, 2, 3, 4, 5, 6, 7, 8]), "1:2:3:4:5:6:7:8");
    assert_eq!(segments([0, 2, 3, 4, 5, 6, 7, 0]), "0:2:3:4:5:6:7:0");
}

#[test]
fn mapped_ipv4_addresses_are_dotted() {
    assert_eq!(segments([0, 0, 0, 0, 0, 0xffff, 0xc000, 0x0280]), "::ffff:192.0.2.128");
    assert_eq!(segments([0, 0, 0, 0, 0, 0, 0xc000, 0x0280]), "::c000:280");
    assert_eq!(segments([0, 0, 0, 0, 1, 0xffff, 0xc000, 0x0280]), "::1:ffff:c000:280");
}

#[test]
fn numbers_are_sent_most_significant_byte_first() {
    assert_eq!(u64_to_be(0x0102030405060708), vec![1, 2, 3, 4, 5, 6, 7, 8]);
    assert_eq!(u64_from_be(&[0, 0, 0, 0, 0, 0, 1, 0]), 256);
    assert_eq!(u64_from_be(&u64_to_be(u64::MAX)), u64::MAX);
}
