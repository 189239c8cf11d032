use datir::tagger::Tagger;
use datir::union_find::UnionFind;

#[test]
fn tagger_counts_up_from_zero() {
    let mut t = Tagger::new();
    assert_eq!(t.tag(), 0);
    assert_eq!(t.tag(), 1);
    assert_eq!(t.tag(), 2);
}

#[test]
fn make_set_gives_fresh_ids_in_sets_of_their_own() {
    let mut uf = UnionFind::new();
    let a = uf.make_set();
    let b = uf.make_set();
    assert_eq!(a, 0);
    assert_eq!(b, 1);
    assert_eq!(uf.find(&a), Some(a));
    assert_eq!(uf.find(&b), Some(b));
}

#[test]
fn find_of_unknown_id_is_none() {
    let mut uf = UnionFind::new();
    uf.make_set();
    assert_eq!(uf.find(&7), None);
}

#[test]
fn union_joins_and_reports_leader() {
    let mut uf = UnionFind::new();
    let a = uf.make_set();
    let b = uf.make_set();
    let c = uf.make_set();
    // equal ranks: the leader of the first argument wins
    assert_eq!(uf.union_tags(&a, &b), Some(a));
    assert_eq!(uf.find(&b), Some(a));
    // rank of a's set is now 1, c has rank 0: a's leader wins either way
    assert_eq!(uf.union_tags(&c, &b), Some(a));
    assert_eq!(uf.find(&c), Some(a));
    assert_eq!(uf.find(&a), Some(a));
}

#[test]
fn union_with_unknown_id_changes_nothing() {
    let mut uf = UnionFind::new();
    let a = uf.make_set();
    let b = uf.make_set();
    assert_eq!(uf.union_tags(&a, &42), None);
    assert_eq!(uf.union_tags(&42, &b), None);
    assert_eq!(uf.find(&a), Some(a));
    assert_eq!(uf.find(&b), Some(b));
}

#[test]
fn union_of_one_set_with_itself_keeps_leader() {
    let mut uf = UnionFind::new();
    let a = uf.make_set();
    let b = uf.make_set();
    assert_eq!(uf.union_tags(&b, &a), Some(b));
    assert_eq!(uf.union_tags(&a, &b), Some(b));
    assert_eq!(uf.union_tags(&a, &a), Some(b));
}

#[test]
fn introduce_tag_adds_once() {
    let mut uf = UnionFind::new();
    assert_eq!(uf.introduce_tag(10), 10);
    assert_eq!(uf.introduce_tag(10), 10);
    assert_eq!(uf.find(&10), Some(10));
    // fresh tags stay above every held id
    let x = uf.make_set();
    assert_eq!(x, 11);
    assert_eq!(uf.union_tags(&x, &10), Some(x));
    assert_eq!(uf.find(&10), Some(11));
}

#[test]
fn make_set_never_hands_out_a_held_id() {
    let mut uf = UnionFind::new();
    assert_eq!(uf.introduce_tag(0), 0);
    let r = uf.make_set();
    assert_ne!(r, 0);
    assert_eq!(uf.find(&r), Some(r));
    assert_eq!(uf.find(&0), Some(0));
    assert_eq!(uf.introduce_tag(5), 5);
    assert_eq!(uf.make_set(), 6);
}

#[test]
fn higher_rank_leader_wins() {
    let mut uf = UnionFind::new();
    let a = uf.make_set();
    let b = uf.make_set();
    let c = uf.make_set();
    let d = uf.make_set();
    assert_eq!(uf.union_tags(&c, &d), Some(c));
    // a has rank 0, c has rank 1: c leads
    assert_eq!(uf.union_tags(&a, &c), Some(c));
    assert_eq!(uf.union_tags(&b, &a), Some(c));
    for id in [a, b, c, d] {
        assert_eq!(uf.find(&id), Some(c));
    }
}

#[test]
fn union_order_does_not_change_the_partition() {
    let mut one = UnionFind::new();
    let mut two = UnionFind::new();
    for _ in 0..4 {
        one.make_set();
        two.make_set();
    }
    one.union_tags(&0, &1);
    one.union_tags(&2, &3);
    two.union_tags(&1, &0);
    two.union_tags(&3, &2);
    for x in 0..4u64 {
        for y in 0..4u64 {
            let same_one = one.find(&x) == one.find(&y);
            let same_two = two.find(&x) == two.find(&y);
            assert_eq!(same_one, same_two);
        }
    }
    assert_ne!(one.find(&0), one.find(&2));
}
