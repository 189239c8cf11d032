use datir::analysis::ATI;
use datir::tagged::Tagged;
use datir::tagged_value::TaggedValue;

#[test]
fn new_analysis_reports_only_the_header() {
    let ati = ATI::new();
    assert_eq!(ati.report(), "===ATI-ANALYSIS-START===\n");
}

#[test]
fn track_gives_consecutive_fresh_tags() {
    let mut ati = ATI::new();
    let a = ati.track(10u32);
    let b = ati.track(20u32);
    assert_eq!(a.0, 10);
    assert_eq!(a.1, 0);
    assert_eq!(b.0, 20);
    assert_eq!(b.1, 1);
    assert_eq!(a.unbind(), 10);
    assert!(ati.can_track());
}

#[test]
fn interacting_variables_share_an_abstract_type() {
    let mut ati = ATI::new();
    let x = ati.track(1u32);
    let y = ati.track(2u32);
    let z = ati.track(3u32);
    let sum = ati.track_operation(&x, &y, x.0 + y.0);
    assert_eq!(sum.0, 3);
    assert_eq!(sum.1, 3);
    let mut site = ati.get_site("main.rs::foo:::ENTER");
    site.bind("x", &x);
    site.bind("y", &y);
    site.bind("z", &z);
    ati.update_site(site);
    assert_eq!(
        ati.report(),
        "===ATI-ANALYSIS-START===\nmain.rs::foo:::ENTER\nx -> 0\ny -> 0\nz -> 2\n---\n"
    );
}

#[test]
fn sites_are_reported_in_name_order() {
    let mut ati = ATI::new();
    let a = ati.track(1i64);
    let b = ati.track(2i64);
    let mut exit = ati.get_site("f:::EXIT");
    exit.bind("return", &b);
    ati.update_site(exit);
    let mut enter = ati.get_site("f:::ENTER");
    enter.bind("a", &a);
    ati.update_site(enter);
    assert_eq!(
        ati.report(),
        "===ATI-ANALYSIS-START===\nf:::ENTER\na -> 0\n---\nf:::EXIT\nreturn -> 1\n---\n"
    );
}

#[test]
fn updates_replay_every_binding_seen_at_the_site() {
    let mut ati = ATI::new();
    let a = ati.track(1u8);
    let b = ati.track(2u8);
    let c = ati.track(3u8);
    let mut site = ati.get_site("g:::ENTER");
    site.bind("p", &a);
    site.bind("q", &b);
    ati.update_site(site);
    // a second call binds p to a value that interacts with q's old one
    let mut site = ati.get_site("g:::ENTER");
    site.bind("p", &c);
    ati.union_tags(&c, &b);
    ati.update_site(site);
    assert_eq!(
        ati.report(),
        "===ATI-ANALYSIS-START===\ng:::ENTER\np -> 0\nq -> 0\n---\n"
    );
}

#[test]
fn update_with_an_unknown_tag_is_refused() {
    let mut ati = ATI::new();
    let a = ati.track(1u16);
    let stray = TaggedValue::new(5u16, 99);
    let mut site = ati.get_site("h:::ENTER");
    site.bind("a", &a);
    site.bind("s", &stray);
    assert!(!ati.try_update_site(site));
    assert_eq!(ati.report(), "===ATI-ANALYSIS-START===\n");
}

#[test]
fn track_array_joins_neighbouring_elements() {
    let mut ati = ATI::new();
    let a = ati.track(1u32);
    let b = ati.track(2u32);
    let c = ati.track(3u32);
    let d = ati.track(4u32);
    let arr = ati.track_array([a, b, c]);
    assert_eq!(arr.1, 4);
    let len = arr.len();
    assert_eq!(len.0, 3);
    assert_eq!(len.1, 4);
    assert_eq!(arr.index(TaggedValue::new(2usize, 0)).0, 3);
    let lead = ati.union_and_get_id(&a.1, &c.1);
    assert_eq!(lead, Some(0));
    // d stays apart: joining it reports the leader of the array's elements
    assert_eq!(ati.union_and_get_id(&d.1, &d.1), Some(3));
}

#[test]
fn track_slice_joins_neighbouring_elements() {
    let mut ati = ATI::new();
    let a = ati.track(7i32);
    let b = ati.track(8i32);
    let mut elems = [a, b];
    let mut ts = ati.track_slice(&mut elems);
    assert_eq!(ts.1, 2);
    assert_eq!(ts.len().0, 2);
    assert_eq!(ts.len().1, 2);
    *ts.index_mut(TaggedValue::new(0usize, 0)) = TaggedValue::new(70, 0);
    assert_eq!(ts.index(TaggedValue::new(0usize, 0)).0, 70);
    assert_eq!(ati.union_and_get_id(&a.1, &b.1), Some(0));
}

#[test]
fn union_and_get_id_with_unknown_id_is_none() {
    let mut ati = ATI::new();
    let a = ati.make_id();
    assert_eq!(a, 0);
    assert_eq!(ati.union_and_get_id(&a, &5), None);
    assert_eq!(ati.union_and_get_id(&a, &a), Some(0));
}

#[test]
fn combine_gives_the_result_the_joined_leader() {
    let mut ati = ATI::new();
    let a = ati.make_id();
    let b = ati.make_id();
    let lhs = Tagged(b, 6u32);
    let rhs = Tagged(a, 7u32);
    let r = ati.combine(&lhs, &rhs, lhs.1 * rhs.1).unwrap();
    assert_eq!(r.1, 42);
    assert_eq!(r.0, b);
    assert!(ati.combine(&lhs, &Tagged(9, 1u32), 0).is_none());
}

#[test]
fn shift_result_is_fresh_and_joined_with_the_left_operand() {
    let mut ati = ATI::new();
    let a = ati.make_id();
    let b = ati.make_id();
    let lhs = Tagged(a, 1u32);
    let r = ati.shift(&lhs, lhs.1 << 4);
    assert_eq!(r.1, 16);
    assert_eq!(r.0, 2);
    // equal ranks: the fresh id leads the joined set
    assert_eq!(ati.union_and_get_id(&r.0, &a), Some(r.0));
    // the shift amount's id stays apart
    assert_eq!(ati.union_and_get_id(&b, &b), Some(b));
}

#[test]
fn indexing_joins_the_index_with_the_length() {
    let mut ati = ATI::new();
    let len_id = ati.make_id();
    let idx_id = ati.make_id();
    let mut arr = Tagged(len_id, [10u8, 20, 30]);
    let i = Tagged(idx_id, 1usize);
    assert_eq!(*ati.index_array(&arr, &i), 20);
    *ati.index_array_mut(&mut arr, &i) = 21;
    assert_eq!(arr.1, [10, 21, 30]);
    assert_eq!(ati.union_and_get_id(&idx_id, &idx_id), Some(len_id));

    let other = ati.make_id();
    let j = ati.make_id();
    let data = [1i32, 2, 3, 4];
    let sl = Tagged(other, &data[..]);
    assert_eq!(*ati.index_slice(&sl, &Tagged(j, 3usize)), 4);
    assert_eq!(ati.union_and_get_id(&j, &j), Some(other));
}

#[test]
fn indexing_a_mutable_slice_writes_through() {
    let mut ati = ATI::new();
    let len_id = ati.make_id();
    let idx_id = ati.make_id();
    let mut data = [5u64, 6, 7];
    let mut sl = Tagged(len_id, &mut data[..]);
    *ati.index_slice_mut(&mut sl, &Tagged(idx_id, 2usize)) = 70;
    assert_eq!(sl.len().1, 3);
    assert_eq!(data, [5, 6, 70]);
}

#[test]
fn subslice_takes_the_range_and_joins_its_id() {
    let mut ati = ATI::new();
    let arr_id = ati.make_id();
    let range_id = ati.make_id();
    let arr = Tagged(arr_id, [1u16, 2, 3, 4, 5]);
    let range = Tagged(range_id, Tagged(9, 1usize)..Tagged(9, 4usize));
    assert_eq!(ati.subslice(&arr, &range), &[2, 3, 4]);
    assert_eq!(ati.union_and_get_id(&range_id, &range_id), Some(arr_id));
}

#[test]
fn get_site_takes_the_site_out() {
    let mut ati = ATI::new();
    let a = ati.track(1u32);
    let mut site = ati.get_site("k");
    site.bind("a", &a);
    ati.update_site(site);
    let taken = ati.get_site("k");
    assert_eq!(ati.report(), "===ATI-ANALYSIS-START===\n");
    assert_eq!(taken.report(), "k\na -> 0\n---\n");
}

#[test]
fn tracked_ranges_join_their_ends() {
    let mut ati = ATI::new();
    let lo = ati.make_id();
    let hi = ati.make_id();
    let other = ati.make_id();
    let r = ati.track_range(Tagged(lo, 1u32), Tagged(hi, 4u32));
    assert_eq!(r.0, 3);
    assert_eq!(r.raw(), 1..4);
    assert_eq!(r.len().1, 3);
    // equal ranks when the range met `lo`: the range's fresh id leads
    assert_eq!(ati.union_and_get_id(&lo, &hi), Some(3));
    assert_eq!(ati.union_and_get_id(&other, &other), Some(other));
    let ri = ati.track_range_inclusive(Tagged(other, 'a'), Tagged(other, 'z'));
    assert_eq!(ri.0, 4);
    assert_eq!((ri.1.start().0, ri.1.start().1), (other, 'a'));
    assert_eq!(ati.union_and_get_id(&other, &other), Some(4));
}
