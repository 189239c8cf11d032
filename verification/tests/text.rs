use datir::names::{compare_names, NameMap, NameOrder};
use datir::text::{decimal_string, join, make_element_name, make_field_name, push_decimal};

#[test]
fn decimals_of_edge_values() {
    assert_eq!(decimal_string(0), "0");
    assert_eq!(decimal_string(7), "7");
    assert_eq!(decimal_string(10), "10");
    assert_eq!(decimal_string(1234567890), "1234567890");
    assert_eq!(decimal_string(u64::MAX), "18446744073709551615");
    let mut s = String::from("id=");
    push_decimal(&mut s, 905);
    assert_eq!(s, "id=905");
}

#[test]
fn derived_names() {
    assert_eq!(make_element_name("arr", 12), "arr[12]");
    assert_eq!(make_field_name("t", 0), "t.0");
    assert_eq!(join("r", ".start"), "r.start");
}

#[test]
fn names_compare_byte_by_byte() {
    assert_eq!(compare_names("a", "b"), NameOrder::Less);
    assert_eq!(compare_names("b", "a"), NameOrder::Greater);
    assert_eq!(compare_names("ab", "ab"), NameOrder::Equal);
    assert_eq!(compare_names("ab", "abc"), NameOrder::Less);
    assert_eq!(compare_names("Z", "a"), NameOrder::Less);
    assert_eq!(compare_names("é", "z"), NameOrder::Greater);
    assert_eq!(compare_names("", ""), NameOrder::Equal);
}

#[test]
fn name_map_keeps_names_in_order() {
    let mut m: NameMap<u32> = NameMap::new();
    m.insert("m".to_string(), 1);
    m.insert("b".to_string(), 2);
    m.insert("x".to_string(), 3);
    m.insert("b".to_string(), 4);
    assert_eq!(m.len(), 3);
    assert_eq!(m.key_at(0), "b");
    assert_eq!(*m.value_at(0), 4);
    assert_eq!(m.key_at(2), "x");
    assert!(m.contains_key("m"));
    assert_eq!(m.get("x"), Some(&3));
    assert_eq!(m.remove("m"), Some(1));
    assert_eq!(m.remove("m"), None);
    assert_eq!(m.get("m"), None);
    assert_eq!(m.len(), 2);
}
