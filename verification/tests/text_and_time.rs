//! Strings, numbers and times.
use tracing_throttle::domain::fields::{contains_name, tidy_names};
use tracing_throttle::text::{decimal_text, hex16_text, is_before, parse_hex16, same_text};
use tracing_throttle::{Duration, FieldMap, Instant};

#[test]
fn numbers_are_written_out() {
    for n in [0, 7, 10, 99, 100, 12_345, u64::MAX] {
        assert_eq!(decimal_text(n), n.to_string());
        assert_eq!(hex16_text(n), format!("{:016x}", n));
        assert_eq!(parse_hex16(&hex16_text(n)), Some(n));
    }
}

#[test]
fn only_sixteen_digits_are_read() {
    assert_eq!(parse_hex16("00000000000000ff"), Some(255));
    assert_eq!(parse_hex16("00000000000000FF"), None);
    assert_eq!(parse_hex16("ff"), None);
    assert_eq!(parse_hex16(""), None);
    assert_eq!(parse_hex16("+0000000000000ff"), None);
    assert_eq!(parse_hex16("000000000000000\u{00e9}"), None);
}

#[test]
fn strings_are_ordered_by_their_bytes() {
    let list = ["", "A", "a", "aa", "ab", "b", "z", "\u{00e9}", "\u{4e16}", "\u{1f44b}"];
    for (i, a) in list.iter().enumerate() {
        for (j, b) in list.iter().enumerate() {
            assert_eq!(is_before(a, b), a < b);
            assert_eq!(is_before(a, b), i < j);
            assert_eq!(same_text(a, b), i == j);
        }
    }
}

#[test]
fn names_are_put_in_order() {
    let names = ["b", "", "a", "b", "a", "c"].map(|s| s.to_string()).to_vec();
    let clean = tidy_names(names);
    assert_eq!(clean, ["a", "b", "c"].map(|s| s.to_string()).to_vec());
    assert!(contains_name(&clean, "b"));
    assert!(!contains_name(&clean, ""));
}

#[test]
fn fields_are_kept_in_order() {
    let mut fields = FieldMap::new();
    for name in ["m", "z", "a", "k", "z"] {
        fields.insert(name.to_string(), format!("<{}>", name));
    }
    fields.insert("k".to_string(), "new".to_string());
    let mut listed = Vec::new();
    for i in 0..fields.len() {
        let (name, value) = fields.nth(i);
        listed.push(format!("{}={}", name, value));
    }
    assert_eq!(listed, vec!["a=<a>", "k=new", "m=<m>", "z=<z>"]);

    let mut other = FieldMap::from_pairs(vec![
        ("k".to_string(), "1".to_string()),
        ("x".to_string(), "2".to_string()),
        ("x".to_string(), "3".to_string()),
    ]);
    other.extend(&fields);
    assert_eq!(other.get("k").unwrap(), "new");
    assert_eq!(other.get("x").unwrap(), "3");
    assert_eq!(other.len(), 5);
    assert_eq!(other.clone(), other);
}

#[test]
fn durations_are_counted_in_nanoseconds() {
    assert_eq!(Duration::from_secs(2).as_nanos(), 2_000_000_000);
    assert_eq!(Duration::from_millis(2).as_nanos(), 2_000_000);
    assert_eq!(Duration::from_nanos(2).as_nanos(), 2);
    let d = Duration::new(3, 1_500_000_000);
    assert_eq!(d.as_secs(), 4);
    assert_eq!(d.subsec_nanos(), 500_000_000);
    assert!(Duration::zero().is_zero());
    assert!(!d.is_zero());
    assert_eq!(Duration::from_secs(u64::MAX).as_secs(), u64::MAX);
}

#[test]
fn instants_are_distances_from_the_base() {
    let t = Instant::base() + Duration::from_secs(5);
    assert_eq!(t.as_nanos(), 5_000_000_000);
    assert_eq!((t - Duration::from_secs(2)).as_nanos(), 3_000_000_000);
    assert_eq!(Instant::base().saturating_duration_since(t), Duration::zero());
    assert_eq!(t.duration_since(Instant::base()), Duration::from_secs(5));
    assert_eq!(t.checked_sub(Duration::from_secs(6)), None);
    let last = Instant::from_nanos(u128::MAX);
    assert_eq!(last.checked_add(Duration::from_nanos(1)), None);
    assert_eq!(last.checked_sub(Duration::zero()), Some(last));
}
