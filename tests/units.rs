use chadtop::text::{compare_text, right_pad, starts_with};
use chadtop::units::{bytes_to_str, percent_to_str};

#[test]
fn bytes_below_a_kilobyte_are_plain() {
    assert_eq!(bytes_to_str(0), "0 b");
    assert_eq!(bytes_to_str(1023), "1023 b");
}

#[test]
fn bytes_scale_with_two_decimals() {
    assert_eq!(bytes_to_str(1024), "1.00 kb");
    assert_eq!(bytes_to_str(1536), "1.50 kb");
    assert_eq!(bytes_to_str(1048576), "1.00 mb");
    assert_eq!(bytes_to_str(5 * 1073741824), "5.00 gb");
    assert_eq!(bytes_to_str(1048575), "1024.00 kb");
}

#[test]
fn bytes_round_half_to_even() {
    // 1 + 128/1024 = 1.125 kb, a tie that goes to the even neighbour
    assert_eq!(bytes_to_str(1152), "1.12 kb");
    // 1.375 kb rounds up to the even neighbour
    assert_eq!(bytes_to_str(1408), "1.38 kb");
    assert_eq!(bytes_to_str(1034), "1.01 kb");
}

#[test]
fn bytes_match_float_formatting() {
    for b in [1024u64, 1100, 2047, 4096 + 77, 999_999, 1_048_577, 123_456_789, 9_876_543_210] {
        let kb = b as f64 / 1024.0;
        let mb = kb / 1024.0;
        let gb = mb / 1024.0;
        let expected = if mb < 1.0 {
            format!("{:.2} kb", kb)
        } else if gb < 1.0 {
            format!("{:.2} mb", mb)
        } else {
            format!("{:.2} gb", gb)
        };
        assert_eq!(bytes_to_str(b), expected);
    }
}

#[test]
fn percent_has_two_decimals() {
    assert_eq!(percent_to_str(9000), "90.00");
    assert_eq!(percent_to_str(5), "0.05");
    assert_eq!(percent_to_str(12345), "123.45");
}

#[test]
fn right_pad_fills_to_width() {
    let mut s = String::from("hi");
    right_pad(&mut s, 5);
    assert_eq!(s, "hi   ");
    assert_eq!(s.len(), 5);
    let mut t = String::from("longer");
    right_pad(&mut t, 3);
    assert_eq!(t, "longer");
}

#[test]
fn text_helpers_compare_by_code_point() {
    assert!(starts_with("bash", "ba"));
    assert!(starts_with("bash", ""));
    assert!(!starts_with("ba", "bash"));
    assert!(!starts_with("dash", "ba"));
    assert_eq!(compare_text("abc", "abd"), -1);
    assert_eq!(compare_text("abc", "ab"), 1);
    assert_eq!(compare_text("Zed", "abc"), -1);
    assert_eq!(compare_text("same", "same"), 0);
}
