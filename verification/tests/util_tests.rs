use siko::util::decimal_string;
use siko::util::str_eq;
use siko::util::str_less;
use siko::util::Counter;
use siko::util::ItemContainer;

#[test]
fn counter_counts_from_zero() {
    let mut c = Counter::new();
    assert_eq!(c.next(), 0);
    assert_eq!(c.next(), 1);
    assert_eq!(c.value, 2);
}

#[test]
fn decimal_strings() {
    assert_eq!(decimal_string(0), "0");
    assert_eq!(decimal_string(9), "9");
    assert_eq!(decimal_string(10), "10");
    assert_eq!(decimal_string(12345), "12345");
    assert_eq!(decimal_string(usize::MAX), format!("{}", usize::MAX));
}

#[test]
fn string_order_and_equality() {
    assert!(str_less("abc", "abd"));
    assert!(str_less("ab", "abc"));
    assert!(str_less("", "a"));
    assert!(!str_less("b", "a"));
    assert!(!str_less("a", "a"));
    assert!(str_less("Z", "a"));
    assert!(str_eq("same", "same"));
    assert!(!str_eq("same", "sane"));
    assert!(!str_eq("a", "ab"));
    assert!(str_eq("", ""));
}

#[test]
fn item_container_hands_out_ids() {
    let mut c: ItemContainer<String> = ItemContainer::new();
    let a = c.get_id();
    let b = c.get_id();
    assert_eq!((a, b), (0, 1));
    c.add_item(b, String::from("second"));
    c.add_item(a, String::from("first"));
    assert_eq!(c.get(a), "first");
    assert_eq!(c.get(b), "second");
    c.add_item(a, String::from("again"));
    assert_eq!(c.get(a), "again");
}
