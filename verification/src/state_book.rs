use vstd::prelude::*;
use crate::keyed_entries::{below, below_keys, is_least, KeyedEntries};
use crate::ordering::AscendingKey;
use crate::view_map::{KeyView, ViewMap};

verus! {

/// The entries of `a` in `m`, empty when it has none.
pub open spec fn entries_in<A, K, X>(m: Map<A, Map<K, X>>, a: A) -> Map<K, X> {
    if m.contains_key(a) {
        m[a]
    } else {
        Map::<K, X>::empty()
    }
}

/// `after` is `before` once `x` is recorded for `k` of `a`, where `a` keeps at most
/// `max` entries: when it then has more, the entry of its least key, `r`, is dropped.
pub open spec fn recorded_keeping<A, K: AscendingKey, X>(
    before: Map<A, Map<K, X>>,
    after: Map<A, Map<K, X>>,
    a: A,
    k: K,
    x: X,
    max: usize,
    r: Option<K>,
) -> bool {
    let e = entries_in(before, a).insert(k, x);
    &&& r is None <==> e.len() <= max
    &&& r matches Some(m) ==> is_least(e.dom(), m) && after == before.insert(a, e.remove(m))
    &&& r is None ==> after == before.insert(a, e)
}

/// Recording with a bound keeps an owner within it: an owner with at most `max`
/// entries has at most `max` after, the new entry among them unless its key is
/// the one dropped, and every other owner keeps its entries.
pub proof fn law_recorded_keeping_bounded<A, K: AscendingKey, X>(
    before: Map<A, Map<K, X>>,
    after: Map<A, Map<K, X>>,
    a: A,
    k: K,
    x: X,
    max: usize,
    r: Option<K>,
)
    requires
        entries_in(before, a).dom().finite(),
        entries_in(before, a).len() <= max,
        recorded_keeping(before, after, a, k, x, max, r),
    ensures
        entries_in(after, a).len() <= max,
        r != Some(k) ==> entries_in(after, a).contains_key(k) && entries_in(after, a)[k] == x,
        forall|b: A| b != a ==> #[trigger] entries_in(after, b) == entries_in(before, b),
{
    let e = entries_in(before, a).insert(k, x);
    if e.len() > max {
        let m = r.unwrap();
        assert(e.dom().contains(m));
        assert(e.remove(m).len() == e.len() - 1);
        if entries_in(before, a).contains_key(k) {
            assert(e.dom() =~= entries_in(before, a).dom());
        }
    }
}

/// Entries kept per owner, such as the processed heights of each light client:
/// a map from owner to a map from key to value.
pub struct Book<S, K, X> {
    inner: ViewMap<S, KeyedEntries<K, X>>,
}

impl<S: KeyView, K: AscendingKey, X> Book<S, K, X> {
    pub closed spec fn wf(&self) -> bool {
        &&& self.inner.wf()
        &&& forall|s: S::V| #[trigger] self.inner@.contains_key(s) ==> self.inner@[s].wf()
    }

    /// The entries of each owner.
    pub closed spec fn view(&self) -> Map<S::V, Map<K, X>> {
        Map::new(|s: S::V| self.inner@.contains_key(s), |s: S::V| self.inner@[s]@)
    }

    /// The entries of `s`, empty when it has none.
    pub open spec fn entries_of(&self, s: S::V) -> Map<K, X> {
        entries_in(self@, s)
    }

    /// Each owner has finitely many entries.
    pub proof fn lemma_finite(&self)
        requires
            self.wf(),
        ensures
            forall|s: S::V| #[trigger] self.entries_of(s).dom().finite(),
    {
        assert forall|s: S::V| #[trigger] self.entries_of(s).dom().finite() by {
            if self@.contains_key(s) {
                self.inner@[s].lemma_keys();
            } else {
                assert(Map::<K, X>::empty().dom() =~= Set::<K>::empty());
            }
        }
    }

    pub fn new() -> (r: Self)
        ensures
            r.wf(),
            r@ == Map::<S::V, Map<K, X>>::empty(),
    {
        let r = Book { inner: ViewMap::new() };
        assert(r@ =~= Map::<S::V, Map<K, X>>::empty());
        r
    }

    /// The value of `k` for `s`.
    pub fn get(&self, s: &S, k: &K) -> (r: Option<&X>)
        requires
            self.wf(),
        ensures
            r.is_some() <==> self.entries_of(s.key_view()).contains_key(*k),
            r matches Some(v) ==> *v == self.entries_of(s.key_view())[*k],
    {
        match self.inner.get(s) {
            Some(entries) => entries.get(k),
            None => None,
        }
    }

    /// Whether `s` has entries recorded, possibly none.
    pub fn contains_owner(&self, s: &S) -> (r: bool)
        requires
            self.wf(),
        ensures
            r == self@.contains_key(s.key_view()),
    {
        self.inner.contains_key(s)
    }

    /// The keys of `s`, or `None` when `s` has nothing recorded.
    pub fn keys_of(&self, s: &S) -> (r: Option<Vec<K>>)
        requires
            self.wf(),
        ensures
            r is None <==> !self@.contains_key(s.key_view()),
            r matches Some(v) ==> v@.no_duplicates() && v@.to_set() == self@[s.key_view()].dom(),
    {
        match self.inner.get(s) {
            Some(entries) => {
                proof {
                    entries.lemma_keys();
                }
                let n = entries.len();
                let mut v: Vec<K> = Vec::new();
                let mut i: usize = 0;
                while i < n
                    invariant
                        entries.wf(),
                        n == entries.key_seq().len(),
                        i <= n,
                        v@ == entries.key_seq().subrange(0, i as int),
                    decreases n - i,
                {
                    v.push(entries.key_at(i));
                    i = i + 1;
                    assert(v@ =~= entries.key_seq().subrange(0, i as int));
                }
                proof {
                    assert(v@ =~= entries.key_seq());
                }
                Some(v)
            },
            None => None,
        }
    }

    /// Records `x` for `k` of `s`; when `s` then has more than `max` entries, the
    /// entry of its least key is dropped and that key returned.
    pub fn insert_keeping(&mut self, s: S, k: K, x: X, max: usize) -> (r: Option<K>)
        requires
            old(self).wf(),
        ensures
            final(self).wf(),
            recorded_keeping(old(self)@, final(self)@, s.key_view(), k, x, max, r),
    {
        let ghost sv = s.key_view();
        let mut entries = match self.inner.remove(&s) {
            Some(e) => e,
            None => KeyedEntries::new(),
        };
        proof {
            assert(entries@ == old(self).entries_of(sv));
        }
        entries.insert(k, x);
        let ghost e = entries@;
        let mut pruned: Option<K> = None;
        if entries.len() > max {
            match entries.least_key(None) {
                Some(m) => {
                    proof {
                        assert(crate::keyed_entries::below_keys(entries@.dom(), None) =~= entries@.dom());
                    }
                    entries.remove(&m);
                    pruned = Some(m);
                },
                None => {
                    proof {
                        entries.lemma_keys();
                        assert(entries@.contains_key(k));
                    }
                },
            }
        }
        proof {
            entries.lemma_keys();
        }
        self.inner.insert(s, entries);
        proof {
            assert forall|t: S::V| #[trigger] self.inner@.contains_key(t) implies self.inner@[t].wf() by {
                if t != sv {
                    assert(old(self).inner@.contains_key(t));
                }
            }
            assert(self@ =~= old(self)@.insert(sv, entries@));
        }
        pruned
    }

    /// The least key of `s`, among those that precede `bound` when a bound is given.
    pub fn least_key_of(&self, s: &S, bound: Option<&K>) -> (r: Option<K>)
        requires
            self.wf(),
        ensures
            r is None <==> below_keys(self.entries_of(s.key_view()).dom(), bound) == Set::<K>::empty(),
            r matches Some(m) ==> is_least(below_keys(self.entries_of(s.key_view()).dom(), bound), m),
    {
        match self.inner.get(s) {
            Some(entries) => {
                let r = entries.least_key(bound);
                proof {
                    if r is None {
                        assert(below_keys(entries@.dom(), bound) =~= Set::<K>::empty());
                    }
                }
                r
            },
            None => {
                proof {
                    assert(below_keys(Map::<K, X>::empty().dom(), bound) =~= Set::<K>::empty());
                }
                None
            },
        }
    }

    /// Records `x` for `k` of `s`.
    pub fn insert(&mut self, s: S, k: K, x: X)
        requires
            old(self).wf(),
        ensures
            final(self).wf(),
            final(self)@ == old(self)@.insert(s.key_view(), old(self).entries_of(s.key_view()).insert(k, x)),
    {
        let ghost sv = s.key_view();
        let mut entries = match self.inner.remove(&s) {
            Some(e) => e,
            None => KeyedEntries::new(),
        };
        entries.insert(k, x);
        self.inner.insert(s, entries);
        proof {
            assert forall|t: S::V| #[trigger] self.inner@.contains_key(t) implies self.inner@[t].wf() by {
                if t != sv {
                    assert(old(self).inner@.contains_key(t));
                }
            }
            assert(self@ =~= old(self)@.insert(sv, old(self).entries_of(sv).insert(k, x)));
        }
    }

    /// Drops the entry of `k` for `s`, if there is one.
    pub fn remove_entry(&mut self, s: &S, k: &K)
        requires
            old(self).wf(),
        ensures
            final(self).wf(),
            old(self)@.contains_key(s.key_view()) ==> final(self)@ == old(self)@.insert(s.key_view(), old(self)@[s.key_view()].remove(*k)),
            !old(self)@.contains_key(s.key_view()) ==> final(self)@ == old(self)@,
    {
        let ghost sv = s.key_view();
        match self.inner.remove(s) {
            Some(mut entries) => {
                entries.remove(k);
                self.inner.insert(s.duplicate(), entries);
                proof {
                    assert forall|t: S::V| #[trigger] self.inner@.contains_key(t) implies self.inner@[t].wf() by {
                        if t != sv {
                            assert(old(self).inner@.contains_key(t));
                        }
                    }
                    assert(self@ =~= old(self)@.insert(sv, old(self)@[sv].remove(*k)));
                }
            },
            None => {
                proof {
                    assert(self@ =~= old(self)@);
                }
            },
        }
    }

    /// Drops everything recorded for `s` and returns its keys.
    pub fn remove_owner(&mut self, s: &S) -> (r: Vec<K>)
        requires
            old(self).wf(),
        ensures
            final(self).wf(),
            final(self)@ == old(self)@.remove(s.key_view()),
            r@.no_duplicates(),
            r@.to_set() == old(self).entries_of(s.key_view()).dom(),
    {
        let keys = match self.keys_of(s) {
            Some(v) => v,
            None => {
                let v: Vec<K> = Vec::new();
                proof {
                    assert(v@.to_set() =~= Set::<K>::empty());
                    assert(Map::<K, X>::empty().dom() =~= Set::<K>::empty());
                }
                v
            },
        };
        let ghost sv = s.key_view();
        self.inner.remove(s);
        proof {
            assert forall|t: S::V| #[trigger] self.inner@.contains_key(t) implies self.inner@[t].wf() by {
                assert(old(self).inner@.contains_key(t));
            }
            assert(self@ =~= old(self)@.remove(sv));
        }
        keys
    }
}

} // verus!
