//! A small key-value table backed by a vector of entries with pairwise
//! distinct keys. Its mathematical view is a `Map` from key views to value
//! views, so callers reason about the registry's storage purely in terms of
//! maps.

use vstd::prelude::*;

verus! {

/// Keys must decide equality of their views.
pub trait TableKey: DeepView + Sized {
    fn key_eq(&self, other: &Self) -> (r: bool)
        ensures
            r <==> self.deep_view() == other.deep_view(),
    ;
}

impl TableKey for u64 {
    fn key_eq(&self, other: &Self) -> (r: bool) {
        *self == *other
    }
}

impl TableKey for Vec<u8> {
    fn key_eq(&self, other: &Self) -> (r: bool) {
        proof {
            assert(self.deep_view() =~= self@);
            assert(other.deep_view() =~= other@);
        }
        bytes_eq(self, other)
    }
}

/// Byte-string equality, decided element by element.
pub fn bytes_eq(a: &Vec<u8>, b: &Vec<u8>) -> (r: bool)
    ensures
        r <==> a@ == b@,
{
    if a.len() != b.len() {
        proof {
            assert(a@.len() != b@.len());
        }
        return false;
    }
    let n = a.len();
    let mut i: usize = 0;
    while i < n
        invariant
            n == a@.len() == b@.len(),
            0 <= i <= n,
            forall|j: int| 0 <= j < i ==> a@[j] == b@[j],
        decreases n - i,
    {
        if a[i] != b[i] {
            return false;
        }
        i += 1;
    }
    proof {
        assert(a@ =~= b@);
    }
    true
}

/// An owned copy of a byte string.
pub fn clone_bytes(v: &Vec<u8>) -> (r: Vec<u8>)
    ensures
        r@ == v@,
{
    let mut r: Vec<u8> = Vec::new();
    let n = v.len();
    let mut i: usize = 0;
    while i < n
        invariant
            n == v@.len(),
            0 <= i <= n,
            r@ == v@.take(i as int),
        decreases n - i,
    {
        r.push(v[i]);
        proof {
            assert(r@ =~= v@.take(i + 1));
        }
        i += 1;
    }
    proof {
        assert(v@.take(n as int) =~= v@);
    }
    r
}

/// The map described by a sequence of entries: later entries overwrite
/// earlier ones with the same key.
pub open spec fn entries_map<K: DeepView, V: DeepView>(s: Seq<(K, V)>) -> Map<K::V, V::V>
    decreases s.len(),
{
    if s.len() == 0 {
        Map::empty()
    } else {
        entries_map(s.drop_last()).insert(s.last().0.deep_view(), s.last().1.deep_view())
    }
}

/// No two entries share a key.
pub open spec fn distinct_keys<K: DeepView, V: DeepView>(s: Seq<(K, V)>) -> bool {
    forall|i: int, j: int|
        0 <= i < j < s.len() ==> s[i].0.deep_view() != s[j].0.deep_view()
}

/// A key is in the map exactly when some entry carries it.
pub proof fn lemma_entries_map_contains<K: DeepView, V: DeepView>(s: Seq<(K, V)>, k: K::V)
    ensures
        entries_map(s).contains_key(k) <==> (exists|i: int|
            0 <= i < s.len() && s[i].0.deep_view() == k),
    decreases s.len(),
{
    if s.len() > 0 {
        lemma_entries_map_contains(s.drop_last(), k);
        if s.last().0.deep_view() == k {
            assert(s[s.len() - 1].0.deep_view() == k);
        } else if entries_map(s).contains_key(k) {
            let i = choose|i: int| 0 <= i < s.drop_last().len() && s.drop_last()[i].0.deep_view() == k;
            assert(s[i].0.deep_view() == k);
        } else {
            assert forall|i: int| 0 <= i < s.len() implies s[i].0.deep_view() != k by {
                if i < s.len() - 1 {
                    assert(s.drop_last()[i].0.deep_view() == s[i].0.deep_view());
                }
            }
        }
    }
}

/// With distinct keys, the entry carrying a key gives that key's value.
pub proof fn lemma_entries_map_value<K: DeepView, V: DeepView>(s: Seq<(K, V)>, i: int)
    requires
        distinct_keys(s),
        0 <= i < s.len(),
    ensures
        entries_map(s).contains_key(s[i].0.deep_view()),
        entries_map(s)[s[i].0.deep_view()] == s[i].1.deep_view(),
    decreases s.len(),
{
    if i == s.len() - 1 {
    } else {
        assert(s.drop_last()[i] == s[i]);
        lemma_entries_map_value(s.drop_last(), i);
        assert(s.last().0.deep_view() != s[i].0.deep_view());
    }
}

/// Appending an entry inserts its key-value pair.
pub proof fn lemma_entries_map_push<K: DeepView, V: DeepView>(s: Seq<(K, V)>, e: (K, V))
    ensures
        entries_map(s.push(e)) == entries_map(s).insert(e.0.deep_view(), e.1.deep_view()),
{
    assert(s.push(e).drop_last() =~= s);
    assert(s.push(e).last() == e);
}

/// With distinct keys, removing the entry carrying a key removes that key.
pub proof fn lemma_entries_map_remove<K: DeepView, V: DeepView>(s: Seq<(K, V)>, i: int)
    requires
        distinct_keys(s),
        0 <= i < s.len(),
    ensures
        entries_map(s.remove(i)) == entries_map(s).remove(s[i].0.deep_view()),
    decreases s.len(),
{
    let k = s[i].0.deep_view();
    if i == s.len() - 1 {
        assert(s.remove(i) =~= s.drop_last());
        lemma_entries_map_contains::<K, V>(s.drop_last(), k);
        assert forall|j: int| 0 <= j < s.drop_last().len() implies s.drop_last()[j].0.deep_view() != k by {
            assert(s.drop_last()[j] == s[j]);
        }
        assert(!entries_map(s.drop_last()).contains_key(k));
        assert(entries_map(s.drop_last()).insert(k, s[i].1.deep_view()).remove(k)
            =~= entries_map(s.drop_last()));
    } else {
        assert(s.remove(i).drop_last() =~= s.drop_last().remove(i));
        assert(s.remove(i).last() == s.last());
        assert(s.drop_last()[i] == s[i]);
        lemma_entries_map_remove(s.drop_last(), i);
        let lk = s.last().0.deep_view();
        let lv = s.last().1.deep_view();
        assert(lk != k);
        assert(entries_map(s.drop_last()).remove(k).insert(lk, lv)
            =~= entries_map(s.drop_last()).insert(lk, lv).remove(k));
    }
}

/// A table of entries with pairwise distinct keys, viewed as a map.
pub struct Table<K, V> {
    entries: Vec<(K, V)>,
}

impl<K: TableKey, V: DeepView> View for Table<K, V> {
    type V = Map<<K as DeepView>::V, <V as DeepView>::V>;

    closed spec fn view(&self) -> Self::V {
        entries_map(self.entries@)
    }
}

impl<K: TableKey, V: DeepView> Table<K, V> {
    /// The table's internal invariant: entry keys are pairwise distinct.
    pub closed spec fn wf(&self) -> bool {
        distinct_keys(self.entries@)
    }

    pub fn new() -> (r: Self)
        ensures
            r.wf(),
            r@ == Map::<<K as DeepView>::V, <V as DeepView>::V>::empty(),
    {
        Table { entries: Vec::new() }
    }

    /// The index of the entry carrying the key, if any.
    fn find(&self, k: &K) -> (r: Option<usize>)
        ensures
            match r {
                Some(i) => i < self.entries@.len()
                    && self.entries@[i as int].0.deep_view() == k.deep_view(),
                None => forall|i: int|
                    0 <= i < self.entries@.len()
                        ==> self.entries@[i].0.deep_view() != k.deep_view(),
            },
    {
        let n = self.entries.len();
        let mut i: usize = 0;
        while i < n
            invariant
                n == self.entries@.len(),
                0 <= i <= n,
                forall|j: int| 0 <= j < i ==> self.entries@[j].0.deep_view() != k.deep_view(),
            decreases n - i,
        {
            if self.entries[i].0.key_eq(k) {
                return Some(i);
            }
            i += 1;
        }
        None
    }

    pub fn contains_key(&self, k: &K) -> (r: bool)
        ensures
            r == self@.contains_key(k.deep_view()),
    {
        proof {
            lemma_entries_map_contains::<K, V>(self.entries@, k.deep_view());
        }
        self.find(k).is_some()
    }

    pub fn get(&self, k: &K) -> (r: Option<&V>)
        requires
            self.wf(),
        ensures
            match r {
                Some(v) => self@.contains_key(k.deep_view())
                    && v.deep_view() == self@[k.deep_view()],
                None => !self@.contains_key(k.deep_view()),
            },
    {
        proof {
            lemma_entries_map_contains::<K, V>(self.entries@, k.deep_view());
        }
        match self.find(k) {
            Some(i) => {
                proof {
                    lemma_entries_map_value(self.entries@, i as int);
                }
                Some(&self.entries[i].1)
            },
            None => None,
        }
    }

    /// Insert the pair, overwriting any entry with the same key.
    pub fn insert(&mut self, k: K, v: V)
        requires
            old(self).wf(),
        ensures
            final(self).wf(),
            final(self)@ == old(self)@.insert(k.deep_view(), v.deep_view()),
    {
        let ghost s0 = self.entries@;
        let ghost kd = k.deep_view();
        match self.find(&k) {
            Some(i) => {
                proof {
                    lemma_entries_map_remove(s0, i as int);
                }
                let _ = self.entries.remove(i);
                proof {
                    assert forall|p: int, q: int|
                        0 <= p < q < self.entries@.len() implies
                        self.entries@[p].0.deep_view() != self.entries@[q].0.deep_view() by {
                        if q < i {
                            assert(self.entries@[p] == s0[p] && self.entries@[q] == s0[q]);
                        } else if p < i {
                            assert(self.entries@[p] == s0[p] && self.entries@[q] == s0[q + 1]);
                        } else {
                            assert(self.entries@[p] == s0[p + 1] && self.entries@[q] == s0[q + 1]);
                        }
                    }
                    assert forall|j: int| 0 <= j < self.entries@.len() implies
                        self.entries@[j].0.deep_view() != kd by {
                        if j < i {
                            assert(self.entries@[j] == s0[j]);
                        } else {
                            assert(self.entries@[j] == s0[j + 1]);
                        }
                    }
                    lemma_entries_map_push(self.entries@, (k, v));
                }
                let ghost s1 = self.entries@;
                self.entries.push((k, v));
                proof {
                    assert forall|p: int, q: int|
                        0 <= p < q < self.entries@.len() implies
                        self.entries@[p].0.deep_view() != self.entries@[q].0.deep_view() by {
                        if q < self.entries@.len() - 1 {
                            assert(self.entries@[p] == s1[p] && self.entries@[q] == s1[q]);
                        } else {
                            assert(self.entries@[p] == s1[p]);
                        }
                    }
                    assert(entries_map(s0).remove(kd).insert(kd, v.deep_view())
                        =~= entries_map(s0).insert(kd, v.deep_view()));
                }
            },
            None => {
                proof {
                    lemma_entries_map_push(self.entries@, (k, v));
                }
                let ghost s1 = self.entries@;
                self.entries.push((k, v));
                proof {
                    assert forall|p: int, q: int|
                        0 <= p < q < self.entries@.len() implies
                        self.entries@[p].0.deep_view() != self.entries@[q].0.deep_view() by {
                        if q < self.entries@.len() - 1 {
                            assert(self.entries@[p] == s1[p] && self.entries@[q] == s1[q]);
                        } else {
                            assert(self.entries@[p] == s1[p]);
                        }
                    }
                }
            },
        }
    }

    /// Remove the entry carrying the key, handing back its value.
    pub fn remove(&mut self, k: &K) -> (r: Option<V>)
        requires
            old(self).wf(),
        ensures
            final(self).wf(),
            final(self)@ == old(self)@.remove(k.deep_view()),
            r is Some <==> old(self)@.contains_key(k.deep_view()),
            (match r {
                Some(v) => v.deep_view() == old(self)@[k.deep_view()],
                None => true,
            }),
    {
        let ghost s0 = self.entries@;
        let ghost kd = k.deep_view();
        proof {
            lemma_entries_map_contains::<K, V>(s0, kd);
        }
        match self.find(k) {
            Some(i) => {
                proof {
                    lemma_entries_map_value(s0, i as int);
                    lemma_entries_map_remove(s0, i as int);
                }
                let e = self.entries.remove(i);
                proof {
                    assert forall|p: int, q: int|
                        0 <= p < q < self.entries@.len() implies
                        self.entries@[p].0.deep_view() != self.entries@[q].0.deep_view() by {
                        if q < i {
                            assert(self.entries@[p] == s0[p] && self.entries@[q] == s0[q]);
                        } else if p < i {
                            assert(self.entries@[p] == s0[p] && self.entries@[q] == s0[q + 1]);
                        } else {
                            assert(self.entries@[p] == s0[p + 1] && self.entries@[q] == s0[q + 1]);
                        }
                    }
                }
                Some(e.1)
            },
            None => {
                proof {
                    assert(entries_map(s0).remove(kd) =~= entries_map(s0));
                }
                None
            },
        }
    }
}

} // verus!
