use datir::site::{Site, Sites};
use datir::tagged_value::{TaggedArray, TaggedValue};
use datir::union_find::UnionFind;

#[test]
fn a_new_site_reports_no_variables() {
    let site = Site::new("main:::ENTER");
    assert_eq!(site.report(), "main:::ENTER\n---\n");
}

#[test]
fn update_gives_each_variable_the_leader_of_its_value() {
    let mut values = UnionFind::new();
    let a = values.make_set();
    let b = values.make_set();
    let c = values.make_set();
    values.union_tags(&b, &c);
    let mut site = Site::new("f");
    site.bind("x", &TaggedValue::new(1u32, a));
    site.bind("y", &TaggedValue::new(2u32, c));
    site.bind_tag("z", b);
    site.update(&mut values);
    assert_eq!(site.report(), "f\nx -> 0\ny -> 1\nz -> 1\n---\n");
}

#[test]
fn try_update_stops_at_an_unknown_tag() {
    let mut values = UnionFind::new();
    let a = values.make_set();
    let mut site = Site::new("f");
    site.bind_tag("x", a);
    site.bind_tag("y", 17);
    assert!(!site.try_update(&mut values));
    let mut fresh = Site::new("g");
    fresh.bind_tag("x", a);
    assert!(fresh.try_update(&mut values));
    assert_eq!(fresh.report(), "g\nx -> 0\n---\n");
}

#[test]
fn extract_creates_or_takes_and_stash_stores() {
    let mut sites = Sites::new();
    let mut values = UnionFind::new();
    let a = values.make_set();
    let mut s = sites.extract("b");
    s.bind_tag("v", a);
    s.update(&mut values);
    sites.stash(s);
    sites.stash(Site::new("a"));
    assert_eq!(sites.report(), "===ATI-ANALYSIS-START===\na\n---\nb\nv -> 0\n---\n");
    let taken = sites.extract("b");
    assert_eq!(taken.report(), "b\nv -> 0\n---\n");
    assert_eq!(sites.report(), "===ATI-ANALYSIS-START===\na\n---\n");
    sites.stash(taken);
    assert_eq!(sites.report(), "===ATI-ANALYSIS-START===\na\n---\nb\nv -> 0\n---\n");
}

#[test]
fn tagged_values_and_arrays() {
    let tv = TaggedValue::new('q', 3);
    assert_eq!(tv.unbind(), 'q');
    assert_eq!(tv.1, 3);
    let mut arr = TaggedArray([TaggedValue::new(1u8, 0), TaggedValue::new(2u8, 1)], 9);
    assert_eq!(arr.len().0, 2);
    assert_eq!(arr.len().1, 9);
    arr.index_mut(TaggedValue::new(1usize, 5)).0 = 20;
    assert_eq!(arr.index(TaggedValue::new(1usize, 5)).0, 20);
}

#[test]
fn updating_again_without_new_interactions_changes_nothing() {
    let mut values = UnionFind::new();
    let a = values.make_set();
    let b = values.make_set();
    let c = values.make_set();
    values.union_tags(&a, &b);
    let mut site = Site::new("f");
    site.bind_tag("x", a);
    site.bind_tag("y", b);
    site.bind_tag("z", c);
    site.bind_tag("x", b);
    site.update(&mut values);
    let first = site.report();
    site.update(&mut values);
    assert_eq!(site.report(), first);
    assert_eq!(first, "f\nx -> 0\ny -> 0\nz -> 2\n---\n");
}

#[test]
fn variables_of_one_type_share_their_label() {
    let mut values = UnionFind::new();
    for _ in 0..3 {
        values.make_set();
    }
    let mut s = Site::new("f");
    s.bind("x", &TaggedValue::new(0u8, 0));
    s.bind("y", &TaggedValue::new(0u8, 1));
    s.update(&mut values);
    values.union_tags(&1, &2);
    s.bind("x", &TaggedValue::new(0u8, 2));
    s.update(&mut values);
    assert_eq!(s.report(), "f\nx -> 0\ny -> 0\n---\n");
}

#[test]
fn update_after_later_value_joins_succeeds() {
    let mut values = UnionFind::new();
    for _ in 0..4 {
        values.make_set();
    }
    let mut s = Site::new("f");
    for (n, t) in [("x", 0u64), ("y", 1), ("y", 2), ("x", 2)] {
        s.bind(n, &TaggedValue::new(0u8, t));
    }
    s.update(&mut values);
    values.union_tags(&3, &1);
    assert!(s.try_update(&mut values));
    let report = s.report();
    let x = report.lines().find(|l| l.starts_with("x ->")).unwrap().to_string();
    let y = report.lines().find(|l| l.starts_with("y ->")).unwrap().to_string();
    assert_eq!(x[4..], y[4..]);
}
