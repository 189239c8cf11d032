use vstd::prelude::*;

use vstd::utf8::{encode_utf8, encode_utf8_decode_utf8};

verus! {

/// Byte-wise lexicographic order: a proper prefix comes first.
pub open spec fn bytes_lt(a: Seq<u8>, b: Seq<u8>) -> bool
    decreases a.len(),
{
    if a.len() == 0 {
        b.len() > 0
    } else if b.len() == 0 {
        false
    } else if a[0] < b[0] {
        true
    } else if a[0] > b[0] {
        false
    } else {
        bytes_lt(a.drop_first(), b.drop_first())
    }
}

/// The order of names: the order of their UTF-8 bytes, as `String` orders them.
pub open spec fn name_lt(a: Seq<char>, b: Seq<char>) -> bool {
    bytes_lt(encode_utf8(a), encode_utf8(b))
}

pub proof fn lemma_bytes_lt_irreflexive(a: Seq<u8>)
    ensures
        !bytes_lt(a, a),
    decreases a.len(),
{
    if a.len() > 0 {
        lemma_bytes_lt_irreflexive(a.drop_first());
    }
}

pub proof fn lemma_bytes_lt_transitive(a: Seq<u8>, b: Seq<u8>, c: Seq<u8>)
    requires
        bytes_lt(a, b),
        bytes_lt(b, c),
    ensures
        bytes_lt(a, c),
    decreases a.len(),
{
    if a.len() > 0 && b.len() > 0 && c.len() > 0 && a[0] == b[0] && b[0] == c[0] {
        lemma_bytes_lt_transitive(a.drop_first(), b.drop_first(), c.drop_first());
    }
}

pub proof fn lemma_bytes_lt_total(a: Seq<u8>, b: Seq<u8>)
    requires
        a != b,
    ensures
        bytes_lt(a, b) || bytes_lt(b, a),
    decreases a.len(),
{
    if a.len() > 0 && b.len() > 0 && a[0] == b[0] {
        if a.drop_first() == b.drop_first() {
            assert(a =~= seq![a[0]] + a.drop_first());
            assert(b =~= seq![b[0]] + b.drop_first());
        }
        lemma_bytes_lt_total(a.drop_first(), b.drop_first());
    } else if a.len() == 0 && b.len() == 0 {
        assert(a =~= b);
    }
}

pub proof fn lemma_bytes_lt_asymmetric(a: Seq<u8>, b: Seq<u8>)
    requires
        bytes_lt(a, b),
    ensures
        !bytes_lt(b, a),
    decreases a.len(),
{
    if a.len() > 0 && b.len() > 0 && a[0] == b[0] {
        lemma_bytes_lt_asymmetric(a.drop_first(), b.drop_first());
    }
}

pub proof fn lemma_name_lt_transitive(a: Seq<char>, b: Seq<char>, c: Seq<char>)
    requires
        name_lt(a, b),
        name_lt(b, c),
    ensures
        name_lt(a, c),
{
    lemma_bytes_lt_transitive(encode_utf8(a), encode_utf8(b), encode_utf8(c));
}

pub proof fn lemma_name_lt_irreflexive(a: Seq<char>)
    ensures
        !name_lt(a, a),
{
    lemma_bytes_lt_irreflexive(encode_utf8(a));
}

/// Two different names are ordered one way or the other.
pub proof fn lemma_name_lt_total(a: Seq<char>, b: Seq<char>)
    requires
        a != b,
    ensures
        name_lt(a, b) || name_lt(b, a),
{
    encode_utf8_decode_utf8(a);
    encode_utf8_decode_utf8(b);
    lemma_bytes_lt_total(encode_utf8(a), encode_utf8(b));
}

/// How one name compares with another.
#[derive(Debug, Clone, Copy, PartialEq, Eq, Structural)]
pub enum NameOrder {
    Less,
    Equal,
    Greater,
}

/// Compares two names byte by byte.
pub fn compare_names(a: &str, b: &str) -> (r: NameOrder)
    ensures
        r == NameOrder::Less <==> name_lt(a@, b@),
        r == NameOrder::Equal <==> a@ == b@,
        r == NameOrder::Greater <==> name_lt(b@, a@),
{
    let x = a.as_bytes();
    let y = b.as_bytes();
    let ghost ea = encode_utf8(a@);
    let ghost eb = encode_utf8(b@);
    proof {
        encode_utf8_decode_utf8(a@);
        encode_utf8_decode_utf8(b@);
        assert(ea.skip(0) =~= ea);
        assert(eb.skip(0) =~= eb);
    }
    let mut i: usize = 0;
    while i < x.len() && i < y.len()
        invariant
            ea == encode_utf8(a@),
            eb == encode_utf8(b@),
            x@ == ea,
            y@ == eb,
            i <= x@.len(),
            i <= y@.len(),
            ea.take(i as int) =~= eb.take(i as int),
            bytes_lt(ea, eb) == bytes_lt(ea.skip(i as int), eb.skip(i as int)),
            bytes_lt(eb, ea) == bytes_lt(eb.skip(i as int), ea.skip(i as int)),
        decreases x@.len() - i,
    {
        if x[i] < y[i] {
            proof {
                assert(ea.skip(i as int)[0] == x@[i as int]);
                assert(eb.skip(i as int)[0] == y@[i as int]);
                assert(bytes_lt(ea.skip(i as int), eb.skip(i as int)));
                lemma_bytes_lt_asymmetric(ea, eb);
                assert(ea[i as int] != eb[i as int]);
                assert(a@ != b@);
            }
            return NameOrder::Less;
        }
        if x[i] > y[i] {
            proof {
                assert(ea.skip(i as int)[0] == x@[i as int]);
                assert(eb.skip(i as int)[0] == y@[i as int]);
                assert(bytes_lt(eb.skip(i as int), ea.skip(i as int)));
                lemma_bytes_lt_asymmetric(eb, ea);
                assert(ea[i as int] != eb[i as int]);
                assert(a@ != b@);
            }
            return NameOrder::Greater;
        }
        proof {
            assert(ea.skip(i as int).drop_first() =~= ea.skip(i + 1));
            assert(eb.skip(i as int).drop_first() =~= eb.skip(i + 1));
            assert(ea.take(i + 1) =~= ea.take(i as int).push(ea[i as int]));
            assert(eb.take(i + 1) =~= eb.take(i as int).push(eb[i as int]));
        }
        i = i + 1;
    }
    if x.len() == y.len() {
        proof {
            assert(ea =~= ea.take(i as int));
            assert(eb =~= eb.take(i as int));
            lemma_bytes_lt_irreflexive(ea);
        }
        NameOrder::Equal
    } else if x.len() < y.len() {
        proof {
            assert(ea.skip(i as int).len() == 0);
            assert(ea.len() != eb.len());
        }
        NameOrder::Less
    } else {
        proof {
            assert(eb.skip(i as int).len() == 0);
            assert(ea.len() != eb.len());
        }
        NameOrder::Greater
    }
}

/// Where a name stands in a `NameMap`: at an index, or missing, with the
/// index at which it would be inserted.
pub enum Slot {
    Found(usize),
    Vacant(usize),
}

/// A map from names to values, kept in the order of the names.
pub struct NameMap<V> {
    entries: Vec<(String, V)>,
}

impl<V> NameMap<V> {
    /// The names, in order.
    pub closed spec fn keys(&self) -> Seq<Seq<char>> {
        self.entries@.map_values(|e: (String, V)| e.0@)
    }

    /// The values, in the order of their names.
    pub closed spec fn values(&self) -> Seq<V> {
        self.entries@.map_values(|e: (String, V)| e.1)
    }

    /// The names are strictly increasing.
    pub closed spec fn wf(&self) -> bool {
        forall|i: int, j: int|
            0 <= i < j < self.entries@.len() ==> name_lt(
                #[trigger] self.entries@[i].0@,
                #[trigger] self.entries@[j].0@,
            )
    }

    /// The map that the entries stand for.
    pub open spec fn map(&self) -> Map<Seq<char>, V> {
        Map::new(
            |k: Seq<char>| self.keys().contains(k),
            |k: Seq<char>| self.values()[self.keys().index_of(k)],
        )
    }

    /// There is a value for each name.
    pub proof fn lemma_lengths(&self)
        ensures
            self.keys().len() == self.values().len(),
    {
    }

    /// The entry at index `i` is in the map.
    pub proof fn lemma_entry(&self, i: int)
        requires
            self.wf(),
            0 <= i < self.keys().len(),
        ensures
            self.map().contains_key(self.keys()[i]),
            self.map()[self.keys()[i]] == self.values()[i],
            self.keys().index_of(self.keys()[i]) == i,
    {
        let k = self.keys()[i];
        assert(self.keys().contains(k));
        let j = self.keys().index_of(k);
        if j != i {
            if i < j {
                assert(name_lt(self.entries@[i].0@, self.entries@[j].0@));
            } else {
                assert(name_lt(self.entries@[j].0@, self.entries@[i].0@));
            }
            lemma_name_lt_irreflexive(k);
        }
    }

    /// The keys are in strictly increasing order.
    pub proof fn lemma_sorted(&self)
        requires
            self.wf(),
        ensures
            forall|i: int, j: int|
                0 <= i < j < self.keys().len() ==> name_lt(
                    #[trigger] self.keys()[i],
                    #[trigger] self.keys()[j],
                ),
    {
        assert forall|i: int, j: int| 0 <= i < j < self.keys().len() implies name_lt(
            #[trigger] self.keys()[i],
            #[trigger] self.keys()[j],
        ) by {
            assert(name_lt(self.entries@[i].0@, self.entries@[j].0@));
        }
    }

    /// Creates an empty map.
    pub fn new() -> (m: Self)
        ensures
            m.wf(),
            m.keys() == Seq::<Seq<char>>::empty(),
            m.map() == Map::<Seq<char>, V>::empty(),
    {
        let m = NameMap { entries: Vec::new() };
        assert(m.keys() =~= Seq::<Seq<char>>::empty());
        assert(m.map() =~= Map::<Seq<char>, V>::empty());
        m
    }

    /// The number of entries.
    pub fn len(&self) -> (n: usize)
        ensures
            n == self.keys().len(),
            n == self.values().len(),
    {
        self.entries.len()
    }

    /// The name of the entry at index `i`.
    pub fn key_at(&self, i: usize) -> (k: &String)
        requires
            i < self.keys().len(),
        ensures
            k@ == self.keys()[i as int],
    {
        &self.entries[i].0
    }

    /// The value of the entry at index `i`.
    pub fn value_at(&self, i: usize) -> (v: &V)
        requires
            i < self.keys().len(),
        ensures
            *v == self.values()[i as int],
    {
        &self.entries[i].1
    }

    /// Finds where `key` stands.
    pub fn slot(&self, key: &str) -> (s: Slot)
        requires
            self.wf(),
        ensures
            s matches Slot::Found(i) ==> i < self.keys().len() && self.keys()[i as int] == key@,
            s matches Slot::Vacant(i) ==> {
                &&& i <= self.keys().len()
                &&& !self.keys().contains(key@)
                &&& forall|j: int| 0 <= j < i ==> name_lt(#[trigger] self.keys()[j], key@)
                &&& forall|j: int| i <= j < self.keys().len() ==> name_lt(key@, #[trigger] self.keys()[j])
            },
    {
        let n = self.entries.len();
        let mut i: usize = 0;
        while i < n
            invariant
                self.wf(),
                n == self.keys().len(),
                i <= n,
                forall|j: int| 0 <= j < i ==> name_lt(#[trigger] self.keys()[j], key@),
            decreases n - i,
        {
            match compare_names(self.entries[i].0.as_str(), key) {
                NameOrder::Less => {},
                NameOrder::Equal => {
                    return Slot::Found(i);
                },
                NameOrder::Greater => {
                    proof {
                        self.lemma_sorted();
                        assert forall|j: int| i <= j < n implies name_lt(key@, #[trigger] self.keys()[j]) by {
                            if j > i {
                                lemma_name_lt_transitive(key@, self.keys()[i as int], self.keys()[j]);
                            }
                        }
                        assert forall|j: int| 0 <= j < n implies self.keys()[j] != key@ by {
                            if j < i {
                                assert(name_lt(self.keys()[j], key@));
                            } else {
                                assert(name_lt(key@, self.keys()[j]));
                            }
                            lemma_name_lt_irreflexive(key@);
                        }
                    }
                    return Slot::Vacant(i);
                },
            }
            i = i + 1;
        }
        proof {
            assert forall|j: int| 0 <= j < n implies self.keys()[j] != key@ by {
                assert(name_lt(self.keys()[j], key@));
                lemma_name_lt_irreflexive(key@);
            }
        }
        Slot::Vacant(n)
    }

    /// Whether `key` has an entry.
    pub fn contains_key(&self, key: &str) -> (b: bool)
        requires
            self.wf(),
        ensures
            b == self.map().contains_key(key@),
    {
        match self.slot(key) {
            Slot::Found(_) => true,
            Slot::Vacant(_) => false,
        }
    }

    /// The value of `key`, if it has an entry.
    pub fn get(&self, key: &str) -> (r: Option<&V>)
        requires
            self.wf(),
        ensures
            r is Some == self.map().contains_key(key@),
            r matches Some(v) ==> *v == self.map()[key@],
    {
        match self.slot(key) {
            Slot::Found(i) => {
                proof {
                    self.lemma_entry(i as int);
                }
                Some(&self.entries[i].1)
            },
            Slot::Vacant(_) => None,
        }
    }

    /// Sets the value of `key`, keeping the names in order.
    pub fn insert(&mut self, key: String, value: V)
        requires
            old(self).wf(),
        ensures
            final(self).wf(),
            final(self).map() == old(self).map().insert(key@, value),
    {
        let ghost k = key@;
        let ghost old_map = self.map();
        let ghost old_keys = self.keys();
        let ghost old_values = self.values();
        match self.slot(key.as_str()) {
            Slot::Found(i) => {
                self.entries.set(i, (key, value));
                proof {
                    assert(self.keys() =~= old_keys);
                    assert(self.values() =~= old_values.update(i as int, value));
                    assert forall|a: int, b: int|
                        0 <= a < b < self.entries@.len() implies name_lt(
                        #[trigger] self.entries@[a].0@,
                        #[trigger] self.entries@[b].0@,
                    ) by {
                        assert(self.entries@[a].0@ == old_keys[a]);
                        assert(self.entries@[b].0@ == old_keys[b]);
                        assert(old_keys[a] == old(self).entries@[a].0@);
                        assert(old_keys[b] == old(self).entries@[b].0@);
                    }
                    self.lemma_entry(i as int);
                    assert forall|q: Seq<char>| #[trigger] self.map().contains_key(q) implies self.map()[q]
                        == old_map.insert(k, value)[q] by {
                        let j = self.keys().index_of(q);
                        self.lemma_entry(j);
                        if q != k {
                            old(self).lemma_entry(j);
                        }
                    }
                    assert(self.map() =~= old_map.insert(k, value));
                }
            },
            Slot::Vacant(i) => {
                self.entries.insert(i, (key, value));
                proof {
                    assert(self.keys() =~= old_keys.insert(i as int, k));
                    assert(self.values() =~= old_values.insert(i as int, value));
                    assert forall|a: int, b: int|
                        0 <= a < b < self.entries@.len() implies name_lt(
                        #[trigger] self.entries@[a].0@,
                        #[trigger] self.entries@[b].0@,
                    ) by {
                        let ka = self.entries@[a].0@;
                        let kb = self.entries@[b].0@;
                        assert(ka == self.keys()[a]);
                        assert(kb == self.keys()[b]);
                        if a < i && b < i {
                            assert(old(self).entries@[a].0@ == old_keys[a]);
                            assert(old(self).entries@[b].0@ == old_keys[b]);
                        } else if a < i && b == i {
                            assert(name_lt(old_keys[a], k));
                        } else if a < i {
                            assert(name_lt(old_keys[a], k));
                            assert(name_lt(k, old_keys[b - 1]));
                            lemma_name_lt_transitive(old_keys[a], k, old_keys[b - 1]);
                        } else if a == i {
                            assert(name_lt(k, old_keys[b - 1]));
                        } else {
                            assert(old(self).entries@[a - 1].0@ == old_keys[a - 1]);
                            assert(old(self).entries@[b - 1].0@ == old_keys[b - 1]);
                        }
                    }
                    assert forall|q: Seq<char>| #[trigger] old_map.insert(k, value).contains_key(q)
                        implies self.map().contains_key(q) by {
                        if q == k {
                            assert(self.keys()[i as int] == k);
                        } else {
                            let j = old_keys.index_of(q);
                            if j < i {
                                assert(self.keys()[j] == q);
                            } else {
                                assert(self.keys()[j + 1] == q);
                            }
                        }
                    }
                    assert forall|q: Seq<char>| #[trigger] self.map().contains_key(q) implies
                        old_map.insert(k, value).contains_key(q) && self.map()[q]
                        == old_map.insert(k, value)[q] by {
                        let j = self.keys().index_of(q);
                        self.lemma_entry(j);
                        if j < i {
                            old(self).lemma_entry(j);
                        } else if j > i {
                            old(self).lemma_entry(j - 1);
                        }
                    }
                    assert(self.map() =~= old_map.insert(k, value));
                }
            },
        }
    }

    /// Removes the entry of `key`, returning its value if there was one.
    pub fn remove(&mut self, key: &str) -> (r: Option<V>)
        requires
            old(self).wf(),
        ensures
            final(self).wf(),
            final(self).map() == old(self).map().remove(key@),
            r is Some == old(self).map().contains_key(key@),
            r matches Some(v) ==> v == old(self).map()[key@],
    {
        let ghost k = key@;
        let ghost old_map = self.map();
        let ghost old_keys = self.keys();
        let ghost old_values = self.values();
        match self.slot(key) {
            Slot::Found(i) => {
                proof {
                    old(self).lemma_entry(i as int);
                }
                let (_, v) = self.entries.remove(i);
                proof {
                    assert(self.keys() =~= old_keys.remove(i as int));
                    assert(self.values() =~= old_values.remove(i as int));
                    assert forall|a: int, b: int|
                        0 <= a < b < self.entries@.len() implies name_lt(
                        #[trigger] self.entries@[a].0@,
                        #[trigger] self.entries@[b].0@,
                    ) by {
                        let a0 = if a < i { a } else { a + 1 };
                        let b0 = if b < i { b } else { b + 1 };
                        assert(self.entries@[a] == old(self).entries@[a0]);
                        assert(self.entries@[b] == old(self).entries@[b0]);
                    }
                    assert forall|q: Seq<char>| #[trigger] old_map.remove(k).contains_key(q)
                        implies self.map().contains_key(q) by {
                        let j = old_keys.index_of(q);
                        if j < i {
                            assert(self.keys()[j] == q);
                        } else {
                            assert(j != i);
                            assert(self.keys()[j - 1] == q);
                        }
                    }
                    assert forall|q: Seq<char>| #[trigger] self.map().contains_key(q) implies
                        old_map.remove(k).contains_key(q) && self.map()[q] == old_map.remove(k)[q] by {
                        let j = self.keys().index_of(q);
                        self.lemma_entry(j);
                        if j < i {
                            old(self).lemma_entry(j);
                            assert(name_lt(old_keys[j], old_keys[i as int])) by {
                                old(self).lemma_sorted();
                            }
                            lemma_name_lt_irreflexive(q);
                        } else {
                            old(self).lemma_entry(j + 1);
                            assert(name_lt(old_keys[i as int], old_keys[j + 1])) by {
                                old(self).lemma_sorted();
                            }
                            lemma_name_lt_irreflexive(q);
                        }
                    }
                    assert(self.map() =~= old_map.remove(k));
                }
                Some(v)
            },
            Slot::Vacant(_) => {
                proof {
                    assert(old_map.remove(k) =~= old_map);
                }
                None
            },
        }
    }
}

} // verus!
