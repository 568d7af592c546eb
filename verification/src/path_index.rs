//! A map from path text to values, as the scanner uses it for the index rows it
//! loaded and for the paths it has seen on disk.
//!
//! Entries are kept in insertion order; a later insertion of a key shadows the
//! earlier ones, so the map view is the left-to-right fold of the entries. A hash of
//! each key leads to the positions of the entries that may hold it.
use vstd::prelude::*;
use std::collections::HashMap;

verus! {

broadcast use vstd::std_specs::hash::group_hash_axioms;

/// The map that a sequence of `(key, value)` insertions builds, later ones winning.
pub open spec fn map_of<V>(s: Seq<(Seq<char>, V)>) -> Map<Seq<char>, V>
    decreases s.len(),
{
    if s.len() == 0 {
        Map::empty()
    } else {
        map_of(s.drop_last()).insert(s.last().0, s.last().1)
    }
}

pub open spec fn key_views<V>(s: Seq<(String, V)>) -> Seq<(Seq<char>, V)> {
    s.map_values(|e: (String, V)| (e.0@, e.1))
}

/// Hash of a key: a polynomial of its characters modulo a prime.
pub open spec fn key_hash(s: Seq<char>) -> u64
    decreases s.len(),
{
    if s.len() == 0 {
        0
    } else {
        ((key_hash(s.drop_last()) as int * 31 + (s.last() as u32) as int) % 1_000_000_007) as u64
    }
}

pub fn hash_key(k: &String) -> (h: u64)
    ensures
        h == key_hash(k@),
{
    broadcast use vstd::string::group_string_axioms;
    let mut h: u64 = 0;
    for c in it: k.as_str().chars()
        invariant
            it.seq() == k@,
            h == key_hash(k@.take(it.index() as int)),
            h < 1_000_000_007,
    {
        let ghost i = it.index() as int;
        proof {
            assert(k@.take(i + 1).drop_last() =~= k@.take(i));
            assert(c == k@[i]);
        }
        let cv: u64 = (c as u32) as u64;
        h = (h * 31 + cv) % 1_000_000_007;
    }
    proof {
        assert(k@.take(k@.len() as int) =~= k@);
    }
    h
}

pub struct PathIndex<V> {
    entries: Vec<(String, V)>,
    buckets: HashMap<u64, Vec<usize>>,
}

impl<V> PathIndex<V> {
    /// The map from key text to value.
    pub closed spec fn view(&self) -> Map<Seq<char>, V> {
        map_of(key_views(self.entries@))
    }

    /// Each entry is listed, in increasing position order, under the hash of its key.
    pub closed spec fn wf(&self) -> bool {
        &&& forall|i: int|
            #![trigger self.entries@[i]]
            0 <= i < self.entries@.len() ==> {
                let h = key_hash(self.entries@[i].0@);
                &&& self.buckets@.contains_key(h)
                &&& self.buckets@[h]@.contains(i as usize)
            }
        &&& forall|h: u64|
            #![trigger self.buckets@[h]]
            self.buckets@.contains_key(h) ==> {
                let b = self.buckets@[h]@;
                &&& forall|j: int|
                    #![trigger b[j]]
                    0 <= j < b.len() ==> b[j] < self.entries@.len() && key_hash(
                        self.entries@[b[j] as int].0@,
                    ) == h
                &&& forall|j1: int, j2: int| 0 <= j1 < j2 < b.len() ==> b[j1] < b[j2]
            }
    }

    pub fn new() -> (r: Self)
        ensures
            r.wf(),
            r.view() == Map::<Seq<char>, V>::empty(),
    {
        let r = PathIndex { entries: Vec::new(), buckets: HashMap::new() };
        proof {
            assert(key_views(r.entries@) =~= Seq::<(Seq<char>, V)>::empty());
        }
        r
    }

    /// Adds or replaces the value of `key`.
    pub fn insert(&mut self, key: String, value: V)
        requires
            old(self).wf(),
        ensures
            final(self).wf(),
            final(self).view() == old(self).view().insert(key@, value),
    {
        let h = hash_key(&key);
        let n = self.entries.len();
        let mut b = match self.buckets.remove(&h) {
            Some(b) => b,
            None => Vec::new(),
        };
        let ghost ob = b@;
        b.push(n);
        self.buckets.insert(h, b);
        self.entries.push((key, value));
        proof {
            assert(key_views(self.entries@).drop_last() =~= key_views(old(self).entries@));
            assert forall|i: int|
                #![trigger self.entries@[i]]
                0 <= i < self.entries@.len() implies {
                let hi = key_hash(self.entries@[i].0@);
                &&& self.buckets@.contains_key(hi)
                &&& self.buckets@[hi]@.contains(i as usize)
            } by {
                let hi = key_hash(self.entries@[i].0@);
                if i < n {
                    assert(self.entries@[i] == old(self).entries@[i]);
                    assert(old(self).buckets@[hi]@.contains(i as usize));
                    if hi == h {
                        let j = choose|j: int| 0 <= j < ob.len() && ob[j] == i as usize;
                        assert(self.buckets@[hi]@[j] == i as usize);
                    } else {
                        assert(self.buckets@[hi] == old(self).buckets@[hi]);
                    }
                } else {
                    assert(self.buckets@[h]@[ob.len() as int] == n);
                }
            }
            assert forall|hh: u64|
                #![trigger self.buckets@[hh]]
                self.buckets@.contains_key(hh) implies {
                let bb = self.buckets@[hh]@;
                &&& forall|j: int|
                    #![trigger bb[j]]
                    0 <= j < bb.len() ==> bb[j] < self.entries@.len() && key_hash(
                        self.entries@[bb[j] as int].0@,
                    ) == hh
                &&& forall|j1: int, j2: int| 0 <= j1 < j2 < bb.len() ==> bb[j1] < bb[j2]
            } by {
                let bb = self.buckets@[hh]@;
                if hh == h {
                    assert forall|j: int|
                        #![trigger bb[j]]
                        0 <= j < bb.len() implies bb[j] < self.entries@.len() && key_hash(
                            self.entries@[bb[j] as int].0@,
                        ) == hh by {
                        if j < ob.len() {
                            assert(ob[j] == bb[j]);
                            assert(old(self).buckets@[h]@[j] == ob[j]);
                            assert(self.entries@[bb[j] as int] == old(self).entries@[bb[j] as int]);
                        }
                    }
                    assert forall|j1: int, j2: int| 0 <= j1 < j2 < bb.len() implies bb[j1]
                        < bb[j2] by {
                        if j2 < ob.len() {
                            assert(old(self).buckets@[h]@[j1] == ob[j1]);
                            assert(old(self).buckets@[h]@[j2] == ob[j2]);
                        } else {
                            assert(old(self).buckets@[h]@[j1] == ob[j1]);
                        }
                    }
                } else {
                    assert(self.buckets@[hh] == old(self).buckets@[hh]);
                    assert forall|j: int|
                        #![trigger bb[j]]
                        0 <= j < bb.len() implies bb[j] < self.entries@.len() && key_hash(
                            self.entries@[bb[j] as int].0@,
                        ) == hh by {
                        assert(old(self).buckets@[hh]@[j] == bb[j]);
                        assert(self.entries@[bb[j] as int] == old(self).entries@[bb[j] as int]);
                    }
                }
            }
        }
    }

    /// The value stored under `key`, if any.
    pub fn get(&self, key: &String) -> (r: Option<&V>)
        requires
            self.wf(),
        ensures
            match r {
                Some(v) => self.view().contains_key(key@) && self.view()[key@] == *v,
                None => !self.view().contains_key(key@),
            },
    {
        let h = hash_key(key);
        let n = self.entries.len();
        match self.buckets.get(&h) {
            None => {
                proof {
                    assert forall|i: int| 0 <= i < key_views(self.entries@).len() implies key_views(
                        self.entries@,
                    )[i].0 != key@ by {
                        let e = self.entries@[i];
                        if e.0@ == key@ {
                            assert(self.buckets@.contains_key(key_hash(e.0@)));
                        }
                    }
                    lemma_absent(key_views(self.entries@), key@);
                }
                None
            },
            Some(b) => {
                let mut t = b.len();
                while t > 0
                    invariant
                        t <= b@.len(),
                        self.buckets@.contains_key(h),
                        self.buckets@[h] == *b,
                        self.wf(),
                        h == key_hash(key@),
                        n == self.entries@.len(),
                        forall|j: int| t <= j < b@.len() ==> (#[trigger] self.entries@[b@[j] as int]).0@
                            != key@,
                    decreases t,
                {
                    let i = b[t - 1];
                    proof {
                        assert(b@[t - 1] < self.entries@.len());
                    }
                    if self.entries[i].0 == *key {
                        proof {
                            assert forall|k: int|
                                i < k < key_views(self.entries@).len() implies key_views(
                                self.entries@,
                            )[k].0 != key@ by {
                                let e = self.entries@[k];
                                if e.0@ == key@ {
                                    assert(self.buckets@[h]@.contains(k as usize));
                                    let j = choose|j: int| 0 <= j < b@.len() && b@[j] == k as usize;
                                    assert(self.entries@[b@[j] as int] == e);
                                    if j < t - 1 {
                                        assert(b@[j] < b@[t - 1]);
                                    }
                                }
                            }
                            lemma_last_occurrence(key_views(self.entries@), i as int, key@);
                        }
                        return Some(&self.entries[i].1);
                    }
                    t = t - 1;
                }
                proof {
                    assert forall|i: int| 0 <= i < key_views(self.entries@).len() implies key_views(
                        self.entries@,
                    )[i].0 != key@ by {
                        let e = self.entries@[i];
                        if e.0@ == key@ {
                            assert(self.buckets@[h]@.contains(i as usize));
                            let j = choose|j: int| 0 <= j < b@.len() && b@[j] == i as usize;
                            assert(self.entries@[b@[j] as int] == e);
                        }
                    }
                    lemma_absent(key_views(self.entries@), key@);
                }
                None
            },
        }
    }

    pub fn contains_key(&self, key: &String) -> (r: bool)
        requires
            self.wf(),
        ensures
            r == self.view().contains_key(key@),
    {
        self.get(key).is_some()
    }
}

proof fn lemma_last_occurrence<V>(s: Seq<(Seq<char>, V)>, j: int, k: Seq<char>)
    requires
        0 <= j < s.len(),
        s[j].0 == k,
        forall|i: int| j < i < s.len() ==> s[i].0 != k,
    ensures
        map_of(s).contains_key(k),
        map_of(s)[k] == s[j].1,
    decreases s.len(),
{
    if j < s.len() - 1 {
        lemma_last_occurrence(s.drop_last(), j, k);
    }
}

proof fn lemma_absent<V>(s: Seq<(Seq<char>, V)>, k: Seq<char>)
    requires
        forall|i: int| 0 <= i < s.len() ==> s[i].0 != k,
    ensures
        !map_of(s).contains_key(k),
    decreases s.len(),
{
    if s.len() > 0 {
        lemma_absent(s.drop_last(), k);
    }
}

} // verus!
