use pomolife::table::NameTable;
use pomolife::text::{chars_of, decimal_string, parse_u64, str_eq, str_lt, string_of, trim_chars, white_space};
use pomolife::time::Timestamp;

#[test]
fn decimal_text() {
    assert_eq!(decimal_string(0), "0");
    assert_eq!(decimal_string(1200), "1200");
    assert_eq!(decimal_string(u64::MAX), "18446744073709551615");
}

#[test]
fn unsigned_parsing() {
    let p = |s: &str| parse_u64(&chars_of(s));
    assert_eq!(p("42"), Some(42));
    assert_eq!(p("+7"), Some(7));
    assert_eq!(p(""), None);
    assert_eq!(p("+"), None);
    assert_eq!(p("-1"), None);
    assert_eq!(p("4 2"), None);
    assert_eq!(p("18446744073709551615"), Some(u64::MAX));
    assert_eq!(p("18446744073709551616"), None);
}

#[test]
fn trimming_and_comparing() {
    let t = trim_chars(&chars_of(" \t a b \n"));
    assert_eq!(string_of(&t), "a b");
    assert!(white_space('\u{3000}'));
    assert!(!white_space('x'));
    assert!(str_eq("abc", "abc"));
    assert!(!str_eq("abc", "abd"));
    assert!(str_lt("abc", "abd"));
    assert!(str_lt("ab", "abc"));
    assert!(!str_lt("abc", "abc"));
    assert!(!str_lt("b", "abc"));
}

#[test]
fn name_table_keeps_one_value_per_name() {
    let mut t: NameTable<u64> = NameTable::new();
    t.insert("a".to_string(), 1);
    t.insert("b".to_string(), 2);
    t.insert("a".to_string(), 3);
    assert_eq!(t.len(), 2);
    assert_eq!(t.get("a"), Some(3));
    assert_eq!(t.get("b"), Some(2));
    assert_eq!(t.get("c"), None);
    assert_eq!(t.entry_count(), 2);
    let (name, value) = t.entry(0);
    assert_eq!(name, "a");
    assert_eq!(value, 3);
}

#[test]
fn local_day_and_hour() {
    let t = Timestamp { secs: 19723 * 86400 + 3600 * 23, nanos: 0, offset: 3600 };
    assert_eq!(t.local_day(), 19724);
    assert_eq!(t.local_hour(), 0);
    let before_epoch = Timestamp { secs: -1, nanos: 0, offset: 0 };
    assert_eq!(before_epoch.local_day(), -1);
    assert_eq!(before_epoch.local_hour(), 23);
}
