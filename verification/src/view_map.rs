use vstd::prelude::*;
use crate::text::same_text;

verus! {

/// Keys compared by an abstract value, such as strings by their characters.
pub trait KeyView: Sized {
    type V;

    spec fn key_view(&self) -> Self::V;

    fn same_key_as(&self, other: &Self) -> (r: bool)
        ensures
            r == (self.key_view() == other.key_view()),
    ;

    fn duplicate(&self) -> (r: Self)
        ensures
            r.key_view() == self.key_view(),
    ;
}

impl KeyView for String {
    type V = Seq<char>;

    open spec fn key_view(&self) -> Seq<char> {
        self@
    }

    fn same_key_as(&self, other: &Self) -> (r: bool) {
        same_text(self.as_str(), other.as_str())
    }

    fn duplicate(&self) -> (r: Self) {
        self.clone()
    }
}

/// A finite map held as a list of entries whose keys have distinct views, in
/// the order in which the keys were first inserted.
pub struct ViewMap<K, X> {
    keys: Vec<K>,
    vals: Vec<X>,
}

impl<K: KeyView, X> ViewMap<K, X> {
    /// The views of the keys, in insertion order.
    pub closed spec fn key_views(&self) -> Seq<K::V> {
        self.keys@.map_values(|k: K| k.key_view())
    }

    pub closed spec fn wf(&self) -> bool {
        &&& self.keys@.len() == self.vals@.len()
        &&& self.key_views().no_duplicates()
    }

    /// The entries as a map from key view to value.
    pub closed spec fn view(&self) -> Map<K::V, X> {
        Map::new(
            |k: K::V| self.key_views().contains(k),
            |k: K::V| self.vals@[self.key_views().index_of(k)],
        )
    }

    proof fn lemma_index(&self, i: int)
        requires
            self.wf(),
            0 <= i < self.keys@.len(),
        ensures
            self.key_views()[i] == self.keys@[i].key_view(),
            self.key_views().index_of(self.keys@[i].key_view()) == i,
            self@.contains_key(self.keys@[i].key_view()),
            self@[self.keys@[i].key_view()] == self.vals@[i],
    {
        let k = self.key_views()[i];
        assert(self.key_views().contains(k));
        let j = self.key_views().index_of(k);
        assert(self.key_views()[j] == k);
    }

    /// The keys of the map are exactly the key views, each once.
    pub proof fn lemma_keys(&self)
        requires
            self.wf(),
        ensures
            self.key_views().no_duplicates(),
            forall|k: K::V| #[trigger] self@.contains_key(k) <==> self.key_views().contains(k),
    {
    }

    pub fn new() -> (r: Self)
        ensures
            r.wf(),
            r@ == Map::<K::V, X>::empty(),
            r.key_views() == Seq::<K::V>::empty(),
    {
        let r = ViewMap { keys: Vec::new(), vals: Vec::new() };
        assert(r@ =~= Map::<K::V, X>::empty());
        assert(r.key_views() =~= Seq::<K::V>::empty());
        r
    }

    pub fn len(&self) -> (n: usize)
        requires
            self.wf(),
        ensures
            n == self.key_views().len(),
    {
        self.keys.len()
    }

    /// The position of `k`, if the map holds it.
    pub fn find(&self, k: &K) -> (r: Option<usize>)
        requires
            self.wf(),
        ensures
            r.is_none() <==> !self@.contains_key(k.key_view()),
            r matches Some(i) ==> i < self.key_views().len() && self.key_views()[i as int] == k.key_view(),
    {
        let n = self.keys.len();
        let mut i: usize = 0;
        while i < n
            invariant
                self.wf(),
                n == self.keys@.len(),
                i <= n,
                forall|j: int| 0 <= j < i ==> self.key_views()[j] != k.key_view(),
            decreases n - i,
        {
            if self.keys[i].same_key_as(k) {
                proof {
                    assert(self.key_views()[i as int] == k.key_view());
                    assert(self.key_views().contains(k.key_view()));
                }
                return Some(i);
            }
            i = i + 1;
        }
        None
    }

    pub fn contains_key(&self, k: &K) -> (r: bool)
        requires
            self.wf(),
        ensures
            r == self@.contains_key(k.key_view()),
    {
        self.find(k).is_some()
    }

    pub fn get(&self, k: &K) -> (r: Option<&X>)
        requires
            self.wf(),
        ensures
            r.is_some() == self@.contains_key(k.key_view()),
            r matches Some(v) ==> *v == self@[k.key_view()],
    {
        match self.find(k) {
            Some(i) => {
                proof {
                    self.lemma_index(i as int);
                }
                Some(&self.vals[i])
            },
            None => None,
        }
    }

    /// The key at position `i`, duplicated.
    pub fn key_at(&self, i: usize) -> (r: K)
        requires
            self.wf(),
            i < self.key_views().len(),
        ensures
            r.key_view() == self.key_views()[i as int],
    {
        self.keys[i].duplicate()
    }

    /// The value at position `i`.
    pub fn value_at(&self, i: usize) -> (r: &X)
        requires
            self.wf(),
            i < self.key_views().len(),
        ensures
            *r == self@[self.key_views()[i as int]],
    {
        proof {
            self.lemma_index(i as int);
        }
        &self.vals[i]
    }

    /// Sets the value of `k`, adding the key at the end if it is new.
    pub fn insert(&mut self, k: K, x: X)
        requires
            old(self).wf(),
        ensures
            final(self).wf(),
            final(self)@ == old(self)@.insert(k.key_view(), x),
            old(self)@.contains_key(k.key_view()) ==> final(self).key_views() == old(self).key_views(),
            !old(self)@.contains_key(k.key_view()) ==> final(self).key_views() == old(self).key_views().push(k.key_view()),
    {
        let ghost kv = k.key_view();
        match self.find(&k) {
            Some(i) => {
                proof {
                    assert(self.key_views()[i as int] == kv);
                    assert(self.key_views().contains(kv));
                }
                self.vals.set(i, x);
                proof {
                    assert(self.keys@ == old(self).keys@);
                    assert(self.key_views() == old(self).key_views());
                    assert forall|kk: K::V| #[trigger] self@.contains_key(kk) == old(self)@.insert(kv, x).contains_key(kk) by {
                        assert(self@.contains_key(kk) == self.key_views().contains(kk));
                        assert(old(self)@.contains_key(kk) == old(self).key_views().contains(kk));
                    }
                    assert forall|kk: K::V| self@.contains_key(kk) implies #[trigger] self@[kk] == old(self)@.insert(kv, x)[kk] by {
                        let j = self.key_views().index_of(kk);
                        assert(self.key_views().contains(kk));
                        assert(self.key_views()[j] == kk);
                        old(self).lemma_index(j);
                        if kk == kv {
                            assert(j == i);
                        }
                    }
                    assert(self@ =~= old(self)@.insert(kv, x));
                }
            },
            None => {
                self.keys.push(k);
                self.vals.push(x);
                proof {
                    assert(self.key_views() =~= old(self).key_views().push(kv));
                    assert(self.key_views()[self.key_views().len() - 1] == kv);
                    assert(self.key_views().contains(kv));
                    assert(self.key_views().no_duplicates()) by {
                        assert forall|a: int, b: int| 0 <= a < b < self.key_views().len() implies self.key_views()[a] != self.key_views()[b] by {
                            if b == self.key_views().len() - 1 {
                                assert(old(self).key_views().contains(old(self).key_views()[a]));
                            }
                        }
                    }
                    assert forall|kk: K::V| #[trigger] self@.contains_key(kk) == old(self)@.insert(kv, x).contains_key(kk) by {
                        assert(self@.contains_key(kk) == self.key_views().contains(kk));
                        assert(old(self)@.contains_key(kk) == old(self).key_views().contains(kk));
                        if kk != kv && self.key_views().contains(kk) {
                            let j = choose|j: int| 0 <= j < self.key_views().len() && self.key_views()[j] == kk;
                            assert(old(self).key_views()[j] == kk);
                        }
                        if old(self).key_views().contains(kk) {
                            let j = choose|j: int| 0 <= j < old(self).key_views().len() && old(self).key_views()[j] == kk;
                            assert(self.key_views()[j] == kk);
                        }
                    }
                    assert forall|kk: K::V| self@.contains_key(kk) implies #[trigger] self@[kk] == old(self)@.insert(kv, x)[kk] by {
                        let j = self.key_views().index_of(kk);
                        assert(self.key_views().contains(kk));
                        assert(self.key_views()[j] == kk);
                        self.lemma_index(j);
                        if j < old(self).keys@.len() {
                            old(self).lemma_index(j);
                        }
                    }
                    assert(self@ =~= old(self)@.insert(kv, x));
                }
            },
        }
    }

    /// Removes `k` and returns its value; the other entries keep their order.
    pub fn remove(&mut self, k: &K) -> (r: Option<X>)
        requires
            old(self).wf(),
        ensures
            final(self).wf(),
            final(self)@ == old(self)@.remove(k.key_view()),
            r.is_some() == old(self)@.contains_key(k.key_view()),
            r matches Some(v) ==> v == old(self)@[k.key_view()],
            final(self).key_views() == (match old(self).find_spec(k.key_view()) {
                Some(i) => old(self).key_views().remove(i),
                None => old(self).key_views(),
            }),
    {
        let ghost kv = k.key_view();
        match self.find(k) {
            Some(i) => {
                proof {
                    self.lemma_index(i as int);
                }
                let ghost old_views = self.key_views();
                self.keys.remove(i);
                let v = self.vals.remove(i);
                proof {
                    assert(self.key_views() =~= old_views.remove(i as int));
                    assert(self.key_views().no_duplicates()) by {
                        assert forall|a: int, b: int| 0 <= a < b < self.key_views().len() implies self.key_views()[a] != self.key_views()[b] by {
                            let a2 = if a < i { a } else { a + 1 };
                            let b2 = if b < i { b } else { b + 1 };
                            assert(self.key_views()[a] == old_views[a2]);
                            assert(self.key_views()[b] == old_views[b2]);
                        }
                    }
                    assert forall|kk: K::V| #[trigger] self@.contains_key(kk) == old(self)@.remove(kv).contains_key(kk) by {
                        assert(self@.contains_key(kk) == self.key_views().contains(kk));
                        assert(old(self)@.contains_key(kk) == old_views.contains(kk));
                        if self.key_views().contains(kk) {
                            let j = choose|j: int| 0 <= j < self.key_views().len() && self.key_views()[j] == kk;
                            let j2 = if j < i { j } else { j + 1 };
                            assert(old_views[j2] == kk);
                            assert(old_views.contains(kk));
                        }
                        if kk != kv && old_views.contains(kk) {
                            let j = choose|j: int| 0 <= j < old_views.len() && old_views[j] == kk;
                            assert(j != i);
                            let j2 = if j < i { j } else { j - 1 };
                            assert(self.key_views()[j2] == kk);
                        }
                    }
                    assert forall|kk: K::V| self@.contains_key(kk) implies #[trigger] self@[kk] == old(self)@.remove(kv)[kk] by {
                        let j = self.key_views().index_of(kk);
                        assert(self.key_views().contains(kk));
                        assert(self.key_views()[j] == kk);
                        self.lemma_index(j);
                        let j2 = if j < i { j } else { j + 1 };
                        old(self).lemma_index(j2);
                        assert(old_views[j2] == kk);
                    }
                    assert(self@ =~= old(self)@.remove(kv));
                    assert(old(self).find_spec(kv) == Some(i as int));
                }
                Some(v)
            },
            None => {
                assert(self@ =~= old(self)@.remove(kv));
                None
            },
        }
    }

    /// The position of a key view, if the map holds it.
    pub closed spec fn find_spec(&self, kv: K::V) -> Option<int> {
        if self.key_views().contains(kv) {
            Some(self.key_views().index_of(kv))
        } else {
            None
        }
    }

    /// Removing the first key drops the first key view.
    pub proof fn lemma_remove_first(&self)
        requires
            self.wf(),
            self.key_views().len() > 0,
        ensures
            self.find_spec(self.key_views()[0]) == Some(0int),
    {
        let kv = self.key_views()[0];
        assert(self.key_views().contains(kv));
        let i = self.key_views().index_of(kv);
        assert(self.key_views()[i] == kv);
        if i != 0 {
            assert(self.key_views()[0] == self.key_views()[i]);
        }
    }
}

} // verus!
