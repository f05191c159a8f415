use docx_you_want::{to_drawing_unit, to_page_unit, u64_to_string};

#[test]
fn test_size() {
    // 793.707 reference pixels, given in micropixels.
    assert_eq!(to_page_unit(793_707_000), 11905);
}

#[test]
fn test_page_unit_values() {
    assert_eq!(to_page_unit(0), 0);
    assert_eq!(to_page_unit(720_000_000), 10800);
    assert_eq!(to_page_unit(1_018_000_000), 15270);
    // 1122.52 reference pixels: truncation, not rounding.
    assert_eq!(to_page_unit(1_122_520_000), 16837);
}

#[test]
fn test_drawing_unit_values() {
    assert_eq!(to_drawing_unit(0), 0);
    assert_eq!(to_drawing_unit(720_000_000), 6858000);
    assert_eq!(to_drawing_unit(1_018_000_000), 9696450);
    // 793.707 reference pixels: floor(793.707 * 9525).
    assert_eq!(to_drawing_unit(793_707_000), 7560059);
}

#[test]
fn test_unit_conversions_deterministic() {
    assert_eq!(to_drawing_unit(123_456_789), to_drawing_unit(123_456_789));
    assert_eq!(to_page_unit(123_456_789), to_page_unit(123_456_789));
}

#[test]
fn test_u64_to_string() {
    assert_eq!(u64_to_string(0), "0");
    assert_eq!(u64_to_string(7), "7");
    assert_eq!(u64_to_string(10), "10");
    assert_eq!(u64_to_string(6858000), "6858000");
    assert_eq!(u64_to_string(u64::MAX), "18446744073709551615");
}
