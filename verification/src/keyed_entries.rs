use vstd::prelude::*;
use crate::ordering::AscendingKey;

verus! {

/// `k` precedes the bound, when there is one.
pub open spec fn below<K: AscendingKey>(k: K, bound: Option<&K>) -> bool {
    match bound {
        Some(b) => k.precedes(*b),
        None => true,
    }
}

/// The keys of `s` that precede the bound, when there is one.
pub open spec fn below_keys<K: AscendingKey>(s: Set<K>, bound: Option<&K>) -> Set<K> {
    s.filter(|k: K| below(k, bound))
}

/// `m` is in `s` and precedes every other member.
pub open spec fn is_least<K: AscendingKey>(s: Set<K>, m: K) -> bool {
    &&& s.contains(m)
    &&& forall|x: K| #[trigger] s.contains(x) ==> x == m || m.precedes(x)
}

/// A finite map held as a list of entries with distinct keys, in the order in
/// which the keys were first inserted.
pub struct KeyedEntries<K, X> {
    keys: Vec<K>,
    vals: Vec<X>,
}

impl<K: AscendingKey, X> KeyedEntries<K, X> {
    /// The keys, in insertion order.
    pub closed spec fn key_seq(&self) -> Seq<K> {
        self.keys@
    }

    pub closed spec fn wf(&self) -> bool {
        &&& self.keys@.len() == self.vals@.len()
        &&& self.keys@.no_duplicates()
    }

    /// The entries as a map from key to value.
    pub closed spec fn view(&self) -> Map<K, X> {
        Map::new(
            |k: K| self.keys@.contains(k),
            |k: K| self.vals@[self.keys@.index_of(k)],
        )
    }

    proof fn lemma_index(&self, i: int)
        requires
            self.wf(),
            0 <= i < self.keys@.len(),
        ensures
            self.keys@.index_of(self.keys@[i]) == i,
            self@.contains_key(self.keys@[i]),
            self@[self.keys@[i]] == self.vals@[i],
    {
        let k = self.keys@[i];
        assert(self.keys@.contains(k));
        let j = self.keys@.index_of(k);
        assert(self.keys@[j] == k);
    }

    pub fn new() -> (r: Self)
        ensures
            r.wf(),
            r@ == Map::<K, X>::empty(),
            r.key_seq() == Seq::<K>::empty(),
    {
        let r = KeyedEntries { keys: Vec::new(), vals: Vec::new() };
        assert(r@ =~= Map::<K, X>::empty());
        r
    }

    pub fn len(&self) -> (n: usize)
        requires
            self.wf(),
        ensures
            n == self.key_seq().len(),
            n == self@.dom().len(),
    {
        proof {
            self.lemma_dom_len();
        }
        self.keys.len()
    }

    proof fn lemma_dom_len(&self)
        requires
            self.wf(),
        ensures
            self@.dom() == self.keys@.to_set(),
            self@.dom().finite(),
            self@.dom().len() == self.keys@.len(),
    {
        assert(self@.dom() =~= self.keys@.to_set());
        self.keys@.unique_seq_to_set();
    }

    /// The position of `k` in the entries, if it is there.
    pub fn find(&self, k: &K) -> (r: Option<usize>)
        requires
            self.wf(),
        ensures
            r.is_none() <==> !self@.contains_key(*k),
            r matches Some(i) ==> i < self.key_seq().len() && self.key_seq()[i as int] == *k,
    {
        let n = self.keys.len();
        let mut i: usize = 0;
        while i < n
            invariant
                self.wf(),
                n == self.keys@.len(),
                i <= n,
                forall|j: int| 0 <= j < i ==> self.keys@[j] != *k,
            decreases n - i,
        {
            if self.keys[i].is_same_key(k) {
                return Some(i);
            }
            i = i + 1;
        }
        None
    }

    pub fn contains_key(&self, k: &K) -> (r: bool)
        requires
            self.wf(),
        ensures
            r == self@.contains_key(*k),
    {
        self.find(k).is_some()
    }

    pub fn get(&self, k: &K) -> (r: Option<&X>)
        requires
            self.wf(),
        ensures
            r.is_some() == self@.contains_key(*k),
            r matches Some(v) ==> *v == self@[*k],
    {
        match self.find(k) {
            Some(i) => {
                proof {
                    self.lemma_index(i as int);
                }
                Some(&self.vals[i])
            },
            None => None,
        }
    }

    /// Sets the value of `k`, adding the key at the end if it is new.
    pub fn insert(&mut self, k: K, x: X)
        requires
            old(self).wf(),
        ensures
            final(self).wf(),
            final(self)@ == old(self)@.insert(k, x),
            old(self)@.contains_key(k) ==> final(self).key_seq() == old(self).key_seq(),
            !old(self)@.contains_key(k) ==> final(self).key_seq() == old(self).key_seq().push(k),
    {
        match self.find(&k) {
            Some(i) => {
                proof {
                    assert(self.keys@[i as int] == k);
                    assert(self.keys@.contains(k));
                }
                self.vals.set(i, x);
                proof {
                    assert(self.keys@ == old(self).keys@);
                    assert forall|kk: K| #[trigger] self@.contains_key(kk) == old(self)@.insert(k, x).contains_key(kk) by {
                        assert(self@.contains_key(kk) == self.keys@.contains(kk));
                        assert(old(self)@.contains_key(kk) == old(self).keys@.contains(kk));
                    }
                    assert forall|kk: K| self@.contains_key(kk) implies #[trigger] self@[kk] == old(self)@.insert(k, x)[kk] by {
                        let j = self.keys@.index_of(kk);
                        assert(self.keys@.contains(kk));
                        assert(self.keys@[j] == kk);
                        old(self).lemma_index(j);
                        if kk == k {
                            assert(j == i);
                        }
                    }
                    assert(self@ =~= old(self)@.insert(k, x));
                }
            },
            None => {
                self.keys.push(k);
                self.vals.push(x);
                proof {
                    assert(self.keys@.no_duplicates()) by {
                        assert forall|a: int, b: int| 0 <= a < b < self.keys@.len() implies self.keys@[a] != self.keys@[b] by {
                            if b == self.keys@.len() - 1 {
                                assert(old(self).keys@.contains(old(self).keys@[a]));
                            }
                        }
                    }
                    assert(self.keys@ == old(self).keys@.push(k));
                    assert(self.keys@[self.keys@.len() - 1] == k);
                    assert(self.keys@.contains(k));
                    assert forall|kk: K| #[trigger] self@.contains_key(kk) == old(self)@.insert(k, x).contains_key(kk) by {
                        assert(self@.contains_key(kk) == self.keys@.contains(kk));
                        assert(old(self)@.contains_key(kk) == old(self).keys@.contains(kk));
                        if kk != k && self.keys@.contains(kk) {
                            let j = choose|j: int| 0 <= j < self.keys@.len() && self.keys@[j] == kk;
                            assert(old(self).keys@[j] == kk);
                        }
                        if old(self).keys@.contains(kk) {
                            let j = choose|j: int| 0 <= j < old(self).keys@.len() && old(self).keys@[j] == kk;
                            assert(self.keys@[j] == kk);
                        }
                    }
                    assert forall|kk: K| self@.contains_key(kk) implies #[trigger] self@[kk] == old(self)@.insert(k, x)[kk] by {
                        let j = self.keys@.index_of(kk);
                        assert(self.keys@.contains(kk));
                        self.lemma_index(j);
                        if j < old(self).keys@.len() {
                            old(self).lemma_index(j);
                        }
                    }
                    assert(self@ =~= old(self)@.insert(k, x));
                }
            },
        }
    }

    /// Removes `k` and returns its value; the other entries keep their order.
    pub fn remove(&mut self, k: &K) -> (r: Option<X>)
        requires
            old(self).wf(),
        ensures
            final(self).wf(),
            final(self)@ == old(self)@.remove(*k),
            r.is_some() == old(self)@.contains_key(*k),
            r matches Some(v) ==> v == old(self)@[*k],
    {
        match self.find(k) {
            Some(i) => {
                proof {
                    self.lemma_index(i as int);
                }
                let ghost old_keys = self.keys@;
                self.keys.remove(i);
                let v = self.vals.remove(i);
                proof {
                    assert(self.keys@ =~= old_keys.remove(i as int));
                    assert(self.keys@.no_duplicates()) by {
                        assert forall|a: int, b: int| 0 <= a < b < self.keys@.len() implies self.keys@[a] != self.keys@[b] by {
                            let a2 = if a < i { a } else { a + 1 };
                            let b2 = if b < i { b } else { b + 1 };
                            assert(self.keys@[a] == old_keys[a2]);
                            assert(self.keys@[b] == old_keys[b2]);
                        }
                    }
                    assert forall|kk: K| #[trigger] self@.contains_key(kk) == old(self)@.remove(*k).contains_key(kk) by {
                        if self.keys@.contains(kk) {
                            let j = choose|j: int| 0 <= j < self.keys@.len() && self.keys@[j] == kk;
                            let j2 = if j < i { j } else { j + 1 };
                            assert(old_keys[j2] == kk);
                            assert(old_keys.contains(kk));
                        }
                        if kk != *k && old_keys.contains(kk) {
                            let j = choose|j: int| 0 <= j < old_keys.len() && old_keys[j] == kk;
                            assert(j != i);
                            let j2 = if j < i { j } else { j - 1 };
                            assert(self.keys@[j2] == kk);
                        }
                    }
                    assert forall|kk: K| self@.contains_key(kk) implies #[trigger] self@[kk] == old(self)@.remove(*k)[kk] by {
                        let j = self.keys@.index_of(kk);
                        assert(self.keys@.contains(kk));
                        self.lemma_index(j);
                        let j2 = if j < i { j } else { j + 1 };
                        old(self).lemma_index(j2);
                        assert(old_keys[j2] == kk);
                    }
                    assert(self@ =~= old(self)@.remove(*k));
                }
                Some(v)
            },
            None => {
                assert(self@ =~= old(self)@.remove(*k));
                None
            },
        }
    }

    /// The keys of the map are exactly the listed keys, each once.
    pub proof fn lemma_keys(&self)
        requires
            self.wf(),
        ensures
            self.key_seq().no_duplicates(),
            forall|k: K| #[trigger] self@.contains_key(k) <==> self.key_seq().contains(k),
            self@.dom().finite(),
            self@.dom().len() == self.key_seq().len(),
            self@.dom() == self.key_seq().to_set(),
    {
        self.lemma_dom_len();
    }

    /// The key at position `i`.
    pub fn key_at(&self, i: usize) -> (r: K)
        requires
            self.wf(),
            i < self.key_seq().len(),
        ensures
            r == self.key_seq()[i as int],
    {
        self.keys[i].copy_key()
    }

    /// The value of the key at position `i`.
    pub fn value_at(&self, i: usize) -> (r: &X)
        requires
            self.wf(),
            i < self.key_seq().len(),
        ensures
            *r == self@[self.key_seq()[i as int]],
    {
        proof {
            self.lemma_index(i as int);
        }
        &self.vals[i]
    }

    /// The least key, among those that precede `bound` when a bound is given.
    pub fn least_key(&self, bound: Option<&K>) -> (r: Option<K>)
        requires
            self.wf(),
        ensures
            r is None <==> forall|k: K| #[trigger] self@.contains_key(k) ==> !below(k, bound),
            r matches Some(m) ==> is_least(below_keys(self@.dom(), bound), m),
    {
        let n = self.keys.len();
        let mut best: Option<K> = None;
        let mut i: usize = 0;
        while i < n
            invariant
                self.wf(),
                n == self.keys@.len(),
                i <= n,
                best is None <==> forall|j: int| 0 <= j < i ==> !below(#[trigger] self.keys@[j], bound),
                best matches Some(m) ==> {
                    &&& exists|j: int| 0 <= j < i && self.keys@[j] == m
                    &&& below(m, bound)
                    &&& forall|j: int| 0 <= j < i && below(#[trigger] self.keys@[j], bound) ==> self.keys@[j] == m || m.precedes(self.keys@[j])
                },
            decreases n - i,
        {
            let k = &self.keys[i];
            let in_range = match bound {
                Some(b) => k.is_before(b),
                None => true,
            };
            if in_range {
                let replace = match &best {
                    Some(m) => k.is_before(m),
                    None => true,
                };
                if replace {
                    proof {
                        if best is Some {
                            let m = best.unwrap();
                            assert forall|j: int| 0 <= j < i + 1 && below(#[trigger] self.keys@[j], bound)
                                implies self.keys@[j] == self.keys@[i as int] || self.keys@[i as int].precedes(self.keys@[j]) by {
                                if j < i && self.keys@[j] != m {
                                    K::lemma_precedes_transitive(self.keys@[i as int], m, self.keys@[j]);
                                }
                            }
                        }
                    }
                    best = Some(k.copy_key());
                } else {
                    proof {
                        let m = best.unwrap();
                        K::lemma_precedes_total(self.keys@[i as int], m);
                    }
                }
            }
            i = i + 1;
        }
        proof {
            self.lemma_keys();
            if best is Some {
                let m = best.unwrap();
                let s = below_keys(self@.dom(), bound);
                assert(s.contains(m));
                assert forall|x: K| #[trigger] s.contains(x) implies x == m || m.precedes(x) by {
                    assert(self.keys@.contains(x));
                    let j = choose|j: int| 0 <= j < self.keys@.len() && self.keys@[j] == x;
                    assert(below(self.keys@[j], bound));
                }
            } else {
                assert forall|k: K| #[trigger] self@.contains_key(k) implies !below(k, bound) by {
                    assert(self.keys@.contains(k));
                    let j = choose|j: int| 0 <= j < self.keys@.len() && self.keys@[j] == k;
                    assert(!below(self.keys@[j], bound));
                }
            }
        }
        best
    }

    /// The value of `k`, to be changed in place.
    pub fn get_mut(&mut self, k: &K) -> (r: Option<&mut X>)
        requires
            old(self).wf(),
        ensures
            r.is_some() == old(self)@.contains_key(*k),
            r is None ==> *final(self) == *old(self),
            r matches Some(v) ==> {
                &&& *v == old(self)@[*k]
                &&& final(self).wf()
                &&& final(self)@ == old(self)@.insert(*k, *final(v))
                &&& final(self).key_seq() == old(self).key_seq()
            },
    {
        match self.find(k) {
            Some(i) => {
                proof {
                    self.lemma_index(i as int);
                }
                Some(&mut self.vals[i])
            },
            None => None,
        }
    }
}

} // verus!
