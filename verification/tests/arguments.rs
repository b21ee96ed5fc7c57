use mongo_read_query::arguments::{skip, take, Take};

#[test]
fn skipping() {
    assert_eq!(skip(Some(3), false), Some(3));
    assert_eq!(skip(None, false), None);
    assert_eq!(skip(Some(3), true), None);
}

#[test]
fn taking() {
    assert_eq!(take(Take::All, false), None);
    assert_eq!(take(Take::One, false), Some(1));
    assert_eq!(take(Take::NegativeOne, false), Some(1));
    assert_eq!(take(Take::Number(5), false), Some(5));
    assert_eq!(take(Take::Number(-5), false), Some(5));
    assert_eq!(take(Take::Number(0), false), Some(0));
    assert_eq!(take(Take::Number(i64::MAX), false), Some(i64::MAX));
    assert_eq!(take(Take::Number(i64::MIN + 1), false), Some(i64::MAX));
}

#[test]
fn taking_is_ignored() {
    assert_eq!(take(Take::Number(5), true), None);
    assert_eq!(take(Take::One, true), None);
    assert_eq!(take(Take::Number(i64::MIN), true), None);
}

#[test]
fn direction() {
    assert!(!Take::All.is_reversed());
    assert!(!Take::One.is_reversed());
    assert!(Take::NegativeOne.is_reversed());
    assert!(!Take::Number(2).is_reversed());
    assert!(!Take::Number(0).is_reversed());
    assert!(Take::Number(-2).is_reversed());
}
