//! A validator is made once and asked as often as needed.

use accord::validators::{length, length_if_present, range};

#[test]
fn validators_test_length() {
    let v = length(3, 5);
    assert!(v(&"12".to_string()).is_err());
    assert!(v(&"123".to_string()).is_ok());
    assert!(v(&"1234".to_string()).is_ok());
    assert!(v(&"12345".to_string()).is_ok());
    assert!(v(&"123456".to_string()).is_err());
}

#[test]
fn validators_test_range() {
    let v = range(12, 127);
    assert!(v(&11).is_err());
    assert!(v(&12).is_ok());
    assert!(v(&50).is_ok());
    assert!(v(&127).is_ok());
    assert!(v(&128).is_err());
}

#[test]
fn length_length_valid() {
    let v = length(1, 3);
    assert!(v(&"123".to_owned()).is_ok());
    assert!(v(&"12".to_owned()).is_ok());
    assert!(v(&"1".to_owned()).is_ok());
}

#[test]
fn length_length_invalid() {
    let v = length(1, 3);
    assert!(v(&"1234".to_owned()).is_err());
    assert!(v(&"".to_owned()).is_err());
}

#[test]
fn length_length_if_present_valid() {
    let v = length_if_present(1, 3);
    assert!(v(&Some("123".to_owned())).is_ok());
    assert!(v(&Some("12".to_owned())).is_ok());
    assert!(v(&None).is_ok());
}

#[test]
fn length_length_if_present_invalid() {
    let v = length_if_present(1, 3);
    assert!(v(&Some("1234".to_owned())).is_err());
    assert!(v(&Some("".to_owned())).is_err());
}

#[test]
fn range_range_valid() {
    let v = range(1, 100);
    assert!(v(&1).is_ok());
    assert!(v(&50).is_ok());
    assert!(v(&100).is_ok());
}

#[test]
fn range_range_invalid() {
    let v = range(1, 100);
    assert!(v(&0).is_err());
    assert!(v(&101).is_err());
}
