use tracing_tunnel::value::{TracedError, TracedValue};
use tracing_tunnel::values::TracedValues;

#[test]
fn scalars_round_trip_through_values() {
    let v = TracedValue::from(true);
    assert_eq!(v.try_as::<bool>(), Some(true));
    assert!(v == true);

    let v = TracedValue::from(-42_i64);
    assert_eq!(v.try_as::<i64>(), Some(-42));
    assert_eq!(v.try_as::<i128>(), Some(-42));
    assert!(v == -42_i64);
    assert!(matches!(v, TracedValue::Int(-42)));

    let v = TracedValue::from(i128::MAX);
    assert_eq!(v.try_as::<i128>(), Some(i128::MAX));
    assert_eq!(v.try_as::<i64>(), None);
    assert!(v == i128::MAX);

    let v = TracedValue::from(u64::MAX);
    assert_eq!(v.try_as::<u64>(), Some(u64::MAX));
    assert_eq!(v.try_as::<u128>(), Some(u64::MAX as u128));
    assert!(v == u64::MAX);

    let v = TracedValue::from(u128::MAX);
    assert_eq!(v.try_as::<u64>(), None);
    assert!(v == u128::MAX);

    let v = TracedValue::from("text");
    assert_eq!(v.as_str(), Some("text"));
    assert!(v == "text");
    assert!(!(v == "other"));
}

#[test]
fn variants_do_not_compare_across_kinds() {
    let v = TracedValue::from(1_u64);
    assert_eq!(v.try_as::<i64>(), None);
    assert_eq!(v.try_as::<bool>(), None);
    assert!(!(v == 1_i64));
    let v = TracedValue::from(1_i64);
    assert!(!(v == 1_u64));
    assert_eq!(v.as_str(), None);
}

#[test]
fn debug_objects_compare_by_text() {
    let v = TracedValue::debug("Point { x: 1 }".to_owned());
    assert!(v.is_debug("Point { x: 1 }"));
    assert!(!v.is_debug("Point { x: 2 }"));
    assert_eq!(v.as_debug_str(), Some("Point { x: 1 }"));
    assert_eq!(TracedValue::from(3_i64).as_debug_str(), None);
    assert!(!TracedValue::string("Point { x: 1 }").is_debug("Point { x: 1 }"));
}

#[test]
fn error_chains_keep_their_messages() {
    let err = TracedError::new(
        "outer".to_owned(),
        &vec!["middle".to_owned(), "inner".to_owned()],
    );
    assert_eq!(err.message, "outer");
    let middle = err.source.as_ref().unwrap();
    assert_eq!(middle.message, "middle");
    let inner = middle.source.as_ref().unwrap();
    assert_eq!(inner.message, "inner");
    assert!(inner.source.is_none());

    let single = TracedError::new("alone".to_owned(), &Vec::new());
    assert!(single.source.is_none());
    let v = TracedValue::error(single);
    assert!(matches!(v, TracedValue::Error(e) if e.message == "alone"));
}

#[test]
fn values_keep_insertion_order_and_replace_in_place() {
    let mut values = TracedValues::new();
    assert!(values.is_empty());
    assert!(values.insert("message".to_owned(), TracedValue::debug("hi".to_owned())).is_none());
    assert!(values.insert("i".to_owned(), TracedValue::from(1_u64)).is_none());
    assert!(values.insert("current".to_owned(), TracedValue::from(2_u64)).is_none());
    let old = values.insert("i".to_owned(), TracedValue::from(5_u64));
    assert!(old.unwrap() == 1_u64);

    assert_eq!(values.len(), 3);
    let names: Vec<&str> = (0..values.len()).map(|i| values.entry(i).0).collect();
    assert_eq!(names, ["message", "i", "current"]);
    assert!(*values.get("i").unwrap() == 5_u64);
    assert!(values.get("missing").is_none());
    assert_eq!(values.position("current"), Some(2));
}

#[test]
fn extending_values_merges_by_name() {
    let mut values =
        TracedValues::from_entries(vec![("a".to_owned(), TracedValue::from(1_i64))]);
    let other = TracedValues::from_entries(vec![
        ("b".to_owned(), TracedValue::from(2_i64)),
        ("a".to_owned(), TracedValue::from(3_i64)),
    ]);
    values.extend(&other);
    assert_eq!(values.len(), 2);
    assert_eq!(values.entry(0).0, "a");
    assert!(*values.entry(0).1 == 3_i64);
    assert_eq!(values.entry(1).0, "b");

    let duplicates = TracedValues::from_entries(vec![
        ("x".to_owned(), TracedValue::from(1_i64)),
        ("x".to_owned(), TracedValue::from(2_i64)),
    ]);
    assert_eq!(duplicates.len(), 1);
    assert!(*duplicates.get("x").unwrap() == 2_i64);
    let copy = duplicates.clone();
    assert!(*copy.get("x").unwrap() == 2_i64);
}

#[test]
fn scalars_compare_in_both_directions() {
    assert!(42_i64 == TracedValue::from(42_i64));
    assert!(42_i128 == TracedValue::from(42_i64));
    assert!(7_u64 == TracedValue::from(7_u64));
    assert!(7_u128 == TracedValue::from(7_u64));
    assert!(true == TracedValue::from(true));
    assert!("abc" == TracedValue::from("abc"));
    assert!(!(5_i64 == TracedValue::from(5_u64)));
    assert!(matches!(TracedValue::from("abc"), TracedValue::String(s) if s == "abc"));
}
