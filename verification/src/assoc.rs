//! A storage map kept as an association list with distinct keys.
use vstd::prelude::*;

verus! {

/// A byte vector's deep view is its view.
pub broadcast proof fn lemma_bytes_deep_view(v: Vec<u8>)
    ensures
        #[trigger] v.deep_view() == v@,
{
    assert(v.deep_view() =~= v@);
}

/// Keys that can be compared in executable code, in agreement with their
/// deep view.
pub trait MapKey: DeepView + Sized {
    fn same_key(&self, other: &Self) -> (b: bool)
        ensures
            b == (self.deep_view() == other.deep_view()),
    ;
}

impl MapKey for u64 {
    fn same_key(&self, other: &Self) -> (b: bool) {
        *self == *other
    }
}

impl MapKey for u32 {
    fn same_key(&self, other: &Self) -> (b: bool) {
        *self == *other
    }
}

impl MapKey for Vec<u8> {
    fn same_key(&self, other: &Self) -> (b: bool) {
        proof {
            assert(self.deep_view() =~= self@);
            assert(other.deep_view() =~= other@);
        }
        if self.len() != other.len() {
            return false;
        }
        let mut i: usize = 0;
        while i < self.len()
            invariant
                self.len() == other.len(),
                i <= self.len(),
                self.deep_view() == self@,
                other.deep_view() == other@,
                forall|j: int| 0 <= j < i ==> self@[j] == other@[j],
            decreases self.len() - i,
        {
            if self[i] != other[i] {
                return false;
            }
            i = i + 1;
        }
        assert(self@ =~= other@);
        true
    }
}

/// A map from keys to values, stored as two vectors of equal length whose
/// keys are pairwise distinct.
pub struct AssocMap<K, V> {
    keys: Vec<K>,
    vals: Vec<V>,
}

impl<K: DeepView, V: DeepView> AssocMap<K, V> {
    /// The map's well-formedness: one value per key, no key twice.
    pub closed spec fn wf(&self) -> bool {
        &&& self.keys.len() == self.vals.len()
        &&& forall|i: int, j: int|
            0 <= i < j < self.keys.len() ==> #[trigger] self.keys@[i].deep_view()
                != #[trigger] self.keys@[j].deep_view()
    }

    spec fn has_at(&self, k: K::V, i: int) -> bool {
        0 <= i < self.keys.len() && self.keys@[i].deep_view() == k
    }

    /// The map's contents.
    pub closed spec fn view(&self) -> Map<K::V, V::V> {
        Map::new(
            |k: K::V| exists|i: int| self.has_at(k, i),
            |k: K::V| self.vals@[choose|i: int| self.has_at(k, i)].deep_view(),
        )
    }

    proof fn lemma_at(&self, i: int)
        requires
            self.wf(),
            0 <= i < self.keys.len(),
        ensures
            self.view().dom().contains(self.keys@[i].deep_view()),
            self.view()[self.keys@[i].deep_view()] == self.vals@[i].deep_view(),
    {
        let k = self.keys@[i].deep_view();
        assert(self.has_at(k, i));
        let j = choose|j: int| self.has_at(k, j);
        if j < i {
            assert(self.keys@[j].deep_view() != self.keys@[i].deep_view());
        } else if i < j {
            assert(self.keys@[i].deep_view() != self.keys@[j].deep_view());
        }
    }

    /// The empty map.
    pub fn new() -> (m: Self)
        ensures
            m.wf(),
            m.view() == Map::<K::V, V::V>::empty(),
    {
        let m = AssocMap { keys: Vec::new(), vals: Vec::new() };
        assert(m.view() =~= Map::<K::V, V::V>::empty());
        m
    }
}

impl<K: MapKey, V: DeepView> AssocMap<K, V> {
    fn find(&self, k: &K) -> (r: Option<usize>)
        requires
            self.wf(),
        ensures
            match r {
                Some(i) => i < self.keys.len() && self.keys@[i as int].deep_view() == k.deep_view(),
                None => !self.view().dom().contains(k.deep_view()),
            },
    {
        let mut i: usize = 0;
        while i < self.keys.len()
            invariant
                i <= self.keys.len(),
                forall|j: int| 0 <= j < i ==> self.keys@[j].deep_view() != k.deep_view(),
            decreases self.keys.len() - i,
        {
            if self.keys[i].same_key(k) {
                return Some(i);
            }
            i = i + 1;
        }
        None
    }

    /// Whether `k` has a value.
    pub fn contains_key(&self, k: &K) -> (b: bool)
        requires
            self.wf(),
        ensures
            b == self.view().dom().contains(k.deep_view()),
    {
        match self.find(k) {
            Some(i) => {
                proof {
                    self.lemma_at(i as int);
                }
                true
            },
            None => false,
        }
    }

    /// The value of `k`, if any.
    pub fn get(&self, k: &K) -> (r: Option<&V>)
        requires
            self.wf(),
        ensures
            match r {
                Some(v) => self.view().dom().contains(k.deep_view()) && self.view()[k.deep_view()]
                    == v.deep_view(),
                None => !self.view().dom().contains(k.deep_view()),
            },
    {
        match self.find(k) {
            Some(i) => {
                proof {
                    self.lemma_at(i as int);
                }
                Some(&self.vals[i])
            },
            None => None,
        }
    }

    /// Sets the value of `k` to `v`, replacing any earlier value.
    pub fn insert(&mut self, k: K, v: V)
        requires
            old(self).wf(),
        ensures
            final(self).wf(),
            final(self).view() == old(self).view().insert(k.deep_view(), v.deep_view()),
    {
        let ghost kv = k.deep_view();
        let ghost vv = v.deep_view();
        match self.find(&k) {
            Some(i) => {
                self.vals.set(i, v);
                proof {
                    let o = old(self).view();
                    let n = self.view();
                    assert forall|key: K::V| #[trigger] n.dom().contains(key) == o.insert(kv, vv).dom().contains(key) by {
                        if exists|j: int| old(self).has_at(key, j) {
                            let j = choose|j: int| old(self).has_at(key, j);
                            assert(self.has_at(key, j));
                        }
                        if exists|j: int| self.has_at(key, j) {
                            let j = choose|j: int| self.has_at(key, j);
                            assert(old(self).has_at(key, j));
                        }
                        if key == kv {
                            assert(self.has_at(key, i as int));
                        }
                    }
                    assert forall|key: K::V| #[trigger] n.dom().contains(key) implies n[key] == o.insert(kv, vv)[key] by {
                        let j = choose|j: int| self.has_at(key, j);
                        self.lemma_at(j);
                        if j != i {
                            old(self).lemma_at(j);
                        }
                    }
                    assert(n =~= o.insert(kv, vv));
                }
            },
            None => {
                self.keys.push(k);
                self.vals.push(v);
                proof {
                    let o = old(self).view();
                    let n = self.view();
                    let last = old(self).keys.len() as int;
                    assert forall|j: int| 0 <= j < last implies #[trigger] self.keys@[j].deep_view() != kv by {
                        assert(!old(self).has_at(kv, j));
                    }
                    assert forall|key: K::V| #[trigger] n.dom().contains(key) == o.insert(kv, vv).dom().contains(key) by {
                        if exists|j: int| old(self).has_at(key, j) {
                            let j = choose|j: int| old(self).has_at(key, j);
                            assert(self.has_at(key, j));
                        }
                        if exists|j: int| self.has_at(key, j) {
                            let j = choose|j: int| self.has_at(key, j);
                            if j < last {
                                assert(old(self).has_at(key, j));
                            }
                        }
                        if key == kv {
                            assert(self.has_at(key, last));
                        }
                    }
                    assert forall|key: K::V| #[trigger] n.dom().contains(key) implies n[key] == o.insert(kv, vv)[key] by {
                        let j = choose|j: int| self.has_at(key, j);
                        self.lemma_at(j);
                        if j != last {
                            assert(old(self).has_at(key, j));
                            old(self).lemma_at(j);
                        }
                    }
                    assert(n =~= o.insert(kv, vv));
                }
            },
        }
    }
}

} // verus!
