use datir::analysis::ATI;
use datir::collection::Collect;
use datir::index::{TaggedSliceIndex, TaggedSliceable};
use datir::site_binds::SiteBind;
use datir::tagged::Tagged;

#[test]
fn array_and_slice_lengths_carry_the_collection_id() {
    let arr = Tagged(4, [1u8, 2, 3]);
    let l = arr.len();
    assert_eq!(l.0, 4);
    assert_eq!(l.1, 3);
    let data = [1i32, 2, 3, 4, 5];
    let sl = Tagged(6, &data[1..]);
    assert_eq!(sl.len().0, 6);
    assert_eq!(sl.len().1, 4);
    let mut m = [0u8; 2];
    let ms = Tagged(8, &mut m[..]);
    assert_eq!(ms.len().1, 2);
    assert_eq!(ms.len().0, 8);
}

#[test]
fn range_len_and_raw() {
    let r = Tagged(7, Tagged(1, 2u32)..Tagged(2, 5u32));
    let l = r.len();
    assert_eq!(l.0, 7);
    assert_eq!(l.1, 3);
    assert_eq!(r.raw(), 2..5);
    let empty = Tagged(7, Tagged(1, -3i64)..Tagged(2, -5i64));
    assert_eq!(empty.len().1, 0);
}

#[test]
fn range_iterates_from_both_ends_with_the_range_id() {
    let mut r = Tagged(7, Tagged(1, 2u32)..Tagged(2, 5u32));
    assert_eq!(r.size_hint(), (3, Some(3)));
    let a = r.next().unwrap();
    assert_eq!((a.0, a.1), (7, 2));
    let b = r.next_back().unwrap();
    assert_eq!((b.0, b.1), (7, 4));
    assert_eq!(r.size_hint(), (1, Some(1)));
    let c = r.next().unwrap();
    assert_eq!((c.0, c.1), (7, 3));
    assert!(r.next().is_none());
    assert!(r.next_back().is_none());
    assert_eq!(r.size_hint(), (0, Some(0)));
    assert_eq!(r.1.start.0, 1);
    assert_eq!(r.1.end.0, 2);
}

#[test]
fn reversed_range_hint_has_no_upper_bound() {
    let r = Tagged(0, Tagged(1, 9i8)..Tagged(2, 3i8));
    assert_eq!(r.size_hint(), (0, None));
}

#[test]
fn inclusive_range_len_raw_and_iteration() {
    let mut r = Tagged(9, Tagged(1, 250u8)..=Tagged(2, 252u8));
    assert_eq!(r.len().1, 3);
    assert_eq!(r.len().0, 9);
    assert_eq!(r.raw(), 250..=252);
    assert_eq!(r.size_hint(), (3, Some(3)));
    assert_eq!(r.next().map(|t| t.1), Some(250));
    assert_eq!(r.next_back().map(|t| t.1), Some(252));
    assert_eq!(r.next().map(|t| (t.0, t.1)), Some((9, 251)));
    assert!(r.next().is_none());
    assert_eq!(r.size_hint(), (0, Some(0)));
}

#[test]
fn inclusive_range_of_full_usize_saturates_its_length() {
    let r = Tagged(0, Tagged(1, 0usize)..=Tagged(2, usize::MAX));
    assert_eq!(r.len().1, usize::MAX);
    assert_eq!(r.size_hint(), (usize::MAX, None));
}

#[test]
fn full_range_raw_and_deref() {
    let f = Tagged(3, ..);
    assert_eq!(f.raw(), ..);
    let t = Tagged(1, 41u32);
    assert_eq!(t.checked_add(1), Some(42));
    assert_eq!(*t, 41);
}

#[test]
fn slice_index_ranges_give_plain_ranges() {
    let r = Tagged(5, Tagged(1, 1usize)..Tagged(2, 3usize));
    assert_eq!(<Tagged<std::ops::Range<Tagged<usize>>> as TaggedSliceIndex<u8>>::id(&r), 5);
    assert_eq!(<Tagged<std::ops::Range<Tagged<usize>>> as TaggedSliceIndex<u8>>::into_raw(r), 1..3);
    let ri = Tagged(6, Tagged(1, 0usize)..=Tagged(2, 2usize));
    assert_eq!(<Tagged<std::ops::RangeInclusive<Tagged<usize>>> as TaggedSliceIndex<u8>>::into_raw(ri), 0..=2);
    let rf = Tagged(7, ..);
    assert_eq!(<Tagged<std::ops::RangeFull> as TaggedSliceIndex<u8>>::id(&rf), 7);
    assert_eq!(<Tagged<std::ops::RangeFull> as TaggedSliceIndex<u8>>::into_raw(rf), ..);
}

#[test]
fn sliceable_collections_give_sub_slices() {
    let arr = Tagged(2, [10u32, 20, 30, 40]);
    assert_eq!(TaggedSliceable::id(&arr), 2);
    assert_eq!(arr.raw_subslice(1..3), &[20, 30]);
    let data = [1u8, 2, 3];
    let sl = Tagged(4, &data[..]);
    assert_eq!(TaggedSliceable::id(&sl), 4);
    assert_eq!(sl.raw_subslice(0..0), &[] as &[u8]);
    assert_eq!(sl.raw_subslice(2..3), &[3]);
}

#[test]
fn collect_puts_ids_at_their_depth() {
    let mut ids: Vec<Vec<u64>> = Vec::new();
    Tagged(5, 1u32).collect_ids_by_level(&mut ids, 2);
    assert_eq!(ids, vec![vec![], vec![], vec![5]]);
    let arr = Tagged(1, [Tagged(2, 'a'), Tagged(3, 'b')]);
    arr.collect_ids_by_level(&mut ids, 0);
    assert_eq!(ids, vec![vec![1], vec![2, 3], vec![5]]);
}

#[test]
fn collect_nested_arrays_and_ranges() {
    let inner1 = Tagged(2, [Tagged(4, true)]);
    let inner2 = Tagged(3, [Tagged(5, false)]);
    let outer = Tagged(1, [inner1, inner2]);
    let mut ids: Vec<Vec<u64>> = Vec::new();
    outer.collect_ids_by_level(&mut ids, 0);
    assert_eq!(ids, vec![vec![1], vec![2, 3], vec![4, 5]]);
    let r = Tagged(9, Tagged(10, 0u16)..Tagged(11, 4u16));
    let mut ids2: Vec<Vec<u64>> = vec![vec![7]];
    r.collect_ids_by_level(&mut ids2, 0);
    assert_eq!(ids2, vec![vec![7, 9], vec![10, 11]]);
    let ri = Tagged(12, Tagged(13, 0u16)..=Tagged(14, 4u16));
    (&ri).collect_ids_by_level(&mut ids2, 1);
    assert_eq!(ids2, vec![vec![7, 9], vec![10, 11, 12], vec![13, 14]]);
    Tagged(15, ..).collect_ids_by_level(&mut ids2, 0);
    assert_eq!(ids2[0], vec![7, 9, 15]);
    let data = [Tagged(21, 1u8)];
    Tagged(20, &data[..]).collect_ids_by_level(&mut ids2, 2);
    assert_eq!(ids2[2], vec![13, 14, 20]);
    assert_eq!(ids2[3], vec![21]);
}

#[test]
fn binding_compound_values_names_every_part() {
    let mut ati = ATI::new();
    let ids: Vec<u64> = (0..10).map(|_| ati.make_id()).collect();
    let mut site = ati.get_site("s");
    let arr = Tagged(ids[0], [Tagged(ids[1], 1u32), Tagged(ids[2], 2u32)]);
    arr.bind(&mut site, "arr");
    let pair = (Tagged(ids[3], 1i8), Tagged(ids[4], 2i8));
    pair.bind(&mut site, "t");
    let r = Tagged(ids[5], Tagged(ids[6], 0usize)..Tagged(ids[7], 3usize));
    r.bind(&mut site, "r");
    let full = Tagged(ids[8], ..);
    full.bind(&mut site, "f");
    (&Tagged(ids[9], 'x')).bind(&mut site, "c");
    ati.update_site(site);
    assert_eq!(
        ati.report(),
        "===ATI-ANALYSIS-START===\ns\n\
         arr[0] -> 1\narr[1] -> 2\narr_LEN -> 0\nc -> 9\nf -> 8\n\
         r -> 5\nr.end -> 7\nr.start -> 6\nr_LEN -> 5\nt.0 -> 3\nt.1 -> 4\n---\n"
    );
}

#[test]
fn binding_slices_and_inclusive_ranges() {
    let mut ati = ATI::new();
    let ids: Vec<u64> = (0..6).map(|_| ati.make_id()).collect();
    let mut site = ati.get_site("z");
    let data = [Tagged(ids[1], 5u64), Tagged(ids[2], 6u64)];
    Tagged(ids[0], &data[..]).bind(&mut site, "s");
    Tagged(ids[3], Tagged(ids[4], 1u8)..=Tagged(ids[5], 2u8)).bind(&mut site, "ri");
    ati.update_site(site);
    assert_eq!(
        ati.report(),
        "===ATI-ANALYSIS-START===\nz\n\
         ri -> 3\nri.end -> 5\nri.start -> 4\nri_LEN -> 3\ns[0] -> 1\ns[1] -> 2\ns_LEN -> 0\n---\n"
    );
}

#[test]
fn binding_long_tuples_numbers_their_fields() {
    let mut ati = ATI::new();
    let ids: Vec<u64> = (0..13).map(|_| ati.make_id()).collect();
    let mut site = ati.get_site("w");
    let t = (
        Tagged(ids[0], 0u8),
        Tagged(ids[1], 0u8),
        Tagged(ids[2], 0u8),
        Tagged(ids[3], 0u8),
        Tagged(ids[4], 0u8),
        Tagged(ids[5], 0u8),
        Tagged(ids[6], 0u8),
        Tagged(ids[7], 0u8),
        Tagged(ids[8], 0u8),
        Tagged(ids[9], 0u8),
        Tagged(ids[10], 0u8),
        Tagged(ids[11], 0u8),
        Tagged(ids[12], 0u8),
    );
    t.bind(&mut site, "v");
    ati.update_site(site);
    let report = ati.report();
    assert!(report.contains("v.0 -> 0\n"));
    assert!(report.contains("v.12 -> 12\n"));
    assert!(report.contains("v.9 -> 9\n"));
    // names sort byte by byte: v.10, v.11, v.12 come before v.2
    let p10 = report.find("v.10 ").unwrap();
    let p2 = report.find("v.2 ").unwrap();
    assert!(p10 < p2);
}
