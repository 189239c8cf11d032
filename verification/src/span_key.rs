use vstd::prelude::*;

use crate::names::{compare_names, NameOrder};

verus! {

/// The source file a span lies in: a path on disk, or a source named
/// otherwise, by text.
#[derive(Debug, Clone)]
pub enum FileKey {
    Real(String),
    Other(String),
}

/// What a `FileKey` stands for.
pub enum FileView {
    Real(Seq<char>),
    Other(Seq<char>),
}

impl View for FileKey {
    type V = FileView;

    open spec fn view(&self) -> FileView {
        match self {
            FileKey::Real(p) => FileView::Real(p@),
            FileKey::Other(s) => FileView::Other(s@),
        }
    }
}

impl FileKey {
    /// Whether two file keys name the same file.
    pub fn same(&self, other: &FileKey) -> (b: bool)
        ensures
            b == (self@ == other@),
    {
        match (self, other) {
            (FileKey::Real(a), FileKey::Real(b)) => compare_names(a.as_str(), b.as_str())
                == NameOrder::Equal,
            (FileKey::Other(a), FileKey::Other(b)) => compare_names(a.as_str(), b.as_str())
                == NameOrder::Equal,
            _ => false,
        }
    }
}

/// A stable key for a stretch of source: the file, and the byte offsets of
/// its start and end within that file.
#[derive(Debug, Clone)]
pub struct SpanKey {
    file: FileKey,
    lo: u32,
    hi: u32,
}

impl View for SpanKey {
    type V = (FileView, u32, u32);

    closed spec fn view(&self) -> (FileView, u32, u32) {
        (self.file@, self.lo, self.hi)
    }
}

impl SpanKey {
    /// The key of the stretch from `lo` to `hi` in `file`.
    pub fn new(file: FileKey, lo: u32, hi: u32) -> (k: SpanKey)
        ensures
            k@ == (file@, lo, hi),
    {
        SpanKey { file, lo, hi }
    }

    /// Whether two keys name the same stretch of source.
    pub fn same(&self, other: &SpanKey) -> (b: bool)
        ensures
            b == (self@ == other@),
    {
        self.lo == other.lo && self.hi == other.hi && self.file.same(&other.file)
    }
}

/// A map keyed by spans, each key held once, in the order the keys came.
pub struct SpanMap<V> {
    entries: Vec<(SpanKey, V)>,
}

impl<V> SpanMap<V> {
    /// The keys, in the order they came.
    pub closed spec fn keys(&self) -> Seq<(FileView, u32, u32)> {
        self.entries@.map_values(|e: (SpanKey, V)| e.0@)
    }

    /// No key is held twice.
    pub closed spec fn wf(&self) -> bool {
        forall|i: int, j: int|
            0 <= i < j < self.entries@.len() ==> #[trigger] self.entries@[i].0@
                != #[trigger] self.entries@[j].0@
    }

    /// The map that the entries stand for.
    pub closed spec fn map(&self) -> Map<(FileView, u32, u32), V> {
        Map::new(
            |k: (FileView, u32, u32)| self.keys().contains(k),
            |k: (FileView, u32, u32)| self.entries@[self.keys().index_of(k)].1,
        )
    }

    /// The entry at index `i` is in the map.
    proof fn lemma_entry(&self, i: int)
        requires
            self.wf(),
            0 <= i < self.entries@.len(),
        ensures
            self.keys()[i] == self.entries@[i].0@,
            self.map().contains_key(self.entries@[i].0@),
            self.map()[self.entries@[i].0@] == self.entries@[i].1,
            self.keys().index_of(self.entries@[i].0@) == i,
    {
        let k = self.keys()[i];
        assert(self.keys().contains(k));
        let j = self.keys().index_of(k);
        if j != i {
            assert(self.entries@[j].0@ == self.keys()[j]);
        }
    }

    /// An empty map.
    pub fn new() -> (m: Self)
        ensures
            m.wf(),
            m.map() == Map::<(FileView, u32, u32), V>::empty(),
    {
        let m = SpanMap { entries: Vec::new() };
        assert(m.map() =~= Map::<(FileView, u32, u32), V>::empty());
        m
    }

    /// The index of the entry of `key`, if it has one.
    fn find(&self, key: &SpanKey) -> (r: Option<usize>)
        requires
            self.wf(),
        ensures
            r is Some <==> self.map().contains_key(key@),
            r matches Some(i) ==> i < self.entries@.len() && self.entries@[i as int].0@ == key@,
    {
        let n = self.entries.len();
        let mut i: usize = 0;
        while i < n
            invariant
                n == self.entries@.len(),
                i <= n,
                forall|j: int| 0 <= j < i ==> self.entries@[j].0@ != key@,
            decreases n - i,
        {
            if self.entries[i].0.same(key) {
                proof {
                    assert(self.keys()[i as int] == key@);
                }
                return Some(i);
            }
            i = i + 1;
        }
        proof {
            if self.keys().contains(key@) {
                let j = self.keys().index_of(key@);
                assert(self.entries@[j].0@ == self.keys()[j]);
            }
        }
        None
    }

    /// Whether `key` has an entry.
    pub fn contains_key(&self, key: &SpanKey) -> (b: bool)
        requires
            self.wf(),
        ensures
            b == self.map().contains_key(key@),
    {
        self.find(key).is_some()
    }

    /// The value of `key`, if it has an entry.
    pub fn get(&self, key: &SpanKey) -> (r: Option<&V>)
        requires
            self.wf(),
        ensures
            r is Some <==> self.map().contains_key(key@),
            r matches Some(v) ==> *v == self.map()[key@],
    {
        match self.find(key) {
            Some(i) => {
                proof {
                    self.lemma_entry(i as int);
                }
                Some(&self.entries[i].1)
            },
            None => None,
        }
    }

    /// Sets the value of `key`.
    pub fn insert(&mut self, key: SpanKey, value: V)
        requires
            old(self).wf(),
        ensures
            final(self).wf(),
            final(self).map() == old(self).map().insert(key@, value),
    {
        let ghost k = key@;
        let ghost old_map = self.map();
        match self.find(&key) {
            Some(i) => {
                self.entries.set(i, (key, value));
                proof {
                    assert(self.keys() =~= old(self).keys());
                    assert forall|a: int, b: int| 0 <= a < b < self.entries@.len() implies #[trigger] self.entries@[a].0@
                        != #[trigger] self.entries@[b].0@ by {
                        assert(self.entries@[a].0@ == self.keys()[a]);
                        assert(self.entries@[b].0@ == self.keys()[b]);
                        assert(old(self).entries@[a].0@ == old(self).keys()[a]);
                        assert(old(self).entries@[b].0@ == old(self).keys()[b]);
                    }
                    assert forall|q: (FileView, u32, u32)| #[trigger] self.map().contains_key(q) implies self.map()[q]
                        == old_map.insert(k, value)[q] by {
                        let j = self.keys().index_of(q);
                        assert(self.entries@[j].0@ == self.keys()[j]);
                        self.lemma_entry(j);
                        if q != k {
                            old(self).lemma_entry(j);
                        }
                    }
                    assert(self.map() =~= old_map.insert(k, value));
                }
            },
            None => {
                self.entries.push((key, value));
                proof {
                    let n = old(self).entries@.len();
                    assert(self.keys() =~= old(self).keys().push(k));
                    assert forall|a: int, b: int| 0 <= a < b < self.entries@.len() implies #[trigger] self.entries@[a].0@
                        != #[trigger] self.entries@[b].0@ by {
                        if b == n {
                            assert(old(self).entries@[a].0@ == old(self).keys()[a]);
                            assert(old(self).keys().contains(old(self).entries@[a].0@));
                        } else {
                            assert(self.entries@[a] == old(self).entries@[a]);
                            assert(self.entries@[b] == old(self).entries@[b]);
                        }
                    }
                    assert forall|q: (FileView, u32, u32)| #[trigger] old_map.insert(k, value).contains_key(q)
                        implies self.map().contains_key(q) by {
                        if q == k {
                            assert(self.keys()[n as int] == k);
                        } else {
                            let j = old(self).keys().index_of(q);
                            assert(self.keys()[j] == q);
                        }
                    }
                    assert forall|q: (FileView, u32, u32)| #[trigger] self.map().contains_key(q) implies
                        old_map.insert(k, value).contains_key(q) && self.map()[q]
                        == old_map.insert(k, value)[q] by {
                        let j = self.keys().index_of(q);
                        assert(self.entries@[j].0@ == self.keys()[j]);
                        self.lemma_entry(j);
                        if j < n {
                            assert(self.entries@[j] == old(self).entries@[j]);
                            old(self).lemma_entry(j);
                        }
                    }
                    assert(self.map() =~= old_map.insert(k, value));
                }
            },
        }
    }
}

} // verus!
