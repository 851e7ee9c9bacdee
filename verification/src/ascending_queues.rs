use vstd::prelude::*;
use crate::index_window::{ascending_between, lemma_ascending_append, lemma_ascending_suffix, map_get, reported_len, span, IndexWindow};
use crate::indexed_lookup_queue::{excess, indices_from, keys_at, law_slice_length, slice_cap, slice_first, slice_last};
use crate::keyed_entries::KeyedEntries;
use crate::ordering::AscendingKey;
use crate::queue_viewer::{lemma_next_key, lemma_previous_key, next_key, previous_key, same_key_ref, window_full, IndexedAscendingQueueViewer};
use crate::types::ProcessingResult;

verus! {

/// The key that may follow a run ending at `end`: any key for a queue that never
/// held one, else a key that the key at `end` precedes.
pub open spec fn may_follow<K: AscendingKey>(index_map: Map<u64, K>, end: u64, key: K) -> bool {
    end == 0 || (index_map.contains_key(end) && index_map[end].precedes(key))
}

proof fn lemma_window_full<K: AscendingKey>(w: &IndexWindow<K>)
    requires
        w.wf(),
    ensures
        window_full(w.index_map(), w.start(), w.end()),
        !w.index_map().contains_key(0u64),
        w.start() == 0 ==> w.end() == 0,
        w.start() <= w.end() + 1,
        w.end() < u64::MAX,
        forall|i: u64| w.start() <= i <= w.end() && w.start() >= 1 ==> #[trigger] w.index_map().contains_key(i),
{
    w.lemma_window();
}

/// Pops one key off the front, keeping the run ascending.
fn pop_ascending<K: AscendingKey>(w: &mut IndexWindow<K>) -> (r: Option<K>)
    requires
        old(w).wf(),
        ascending_between(old(w).index_map(), old(w).start(), old(w).end()),
    ensures
        final(w).wf(),
        ascending_between(final(w).index_map(), final(w).start(), final(w).end()),
        final(w).max_length() == old(w).max_length(),
        final(w).end() == old(w).end(),
        old(w).index_map().contains_key(old(w).start()) ==> {
            &&& r == Some(old(w).index_map()[old(w).start()])
            &&& final(w).start() == old(w).start() + 1
            &&& final(w).index_map() == old(w).index_map().remove(old(w).start())
        },
        !old(w).index_map().contains_key(old(w).start()) ==> {
            &&& r.is_none()
            &&& final(w).start() == old(w).start()
            &&& final(w).index_map() == old(w).index_map()
        },
{
    proof {
        old(w).lemma_window();
    }
    let r = w.pop_front();
    proof {
        if r.is_some() {
            let s = old(w).start();
            assert(old(w).index_map().remove(s) =~= old(w).index_map().remove_keys(set![s]));
            lemma_ascending_suffix(old(w).index_map(), s, old(w).end(), set![s], (s + 1) as u64);
        }
    }
    r
}

/// Appends a key that follows every key of an ascending run.
fn append_ascending<K: AscendingKey>(w: &mut IndexWindow<K>, k: K)
    requires
        old(w).wf(),
        ascending_between(old(w).index_map(), old(w).start(), old(w).end()),
        old(w).end() + 1 < u64::MAX,
        may_follow(old(w).index_map(), old(w).end(), k),
    ensures
        final(w).wf(),
        ascending_between(final(w).index_map(), final(w).start(), final(w).end()),
        final(w).max_length() == old(w).max_length(),
        final(w).end() == old(w).end() + 1,
        final(w).start() <= final(w).end(),
        final(w).start() == (if old(w).start() == 0 && old(w).end() == 0 { 1 } else { old(w).start() }),
        final(w).index_map() == old(w).index_map().insert((old(w).end() + 1) as u64, k),
{
    proof {
        old(w).lemma_window();
        let s1: u64 = if old(w).start() == 0 && old(w).end() == 0 { 1 } else { old(w).start() };
        assert forall|i: u64, j: u64| #![trigger old(w).index_map()[i], old(w).index_map()[j]]
            s1 <= i < j <= old(w).end() implies old(w).index_map()[i].precedes(old(w).index_map()[j]) by {}
        lemma_ascending_append(old(w).index_map(), s1, old(w).end(), k);
    }
    w.append(k);
}

/// Pops from the front of an ascending run until it fits `max_length`.
fn trim_ascending<K: AscendingKey>(w: &mut IndexWindow<K>, max_length: u64)
    requires
        old(w).wf(),
        ascending_between(old(w).index_map(), old(w).start(), old(w).end()),
        !(old(w).start() == 0 && max_length == 0),
    ensures
        final(w).wf(),
        ascending_between(final(w).index_map(), final(w).start(), final(w).end()),
        final(w).max_length() == max_length,
        final(w).end() == old(w).end(),
        ({
            let d = if old(w).start() == 0 { 0 } else { excess(span(old(w).start(), old(w).end()), max_length) };
            &&& final(w).start() == old(w).start() + d
            &&& final(w).index_map() == old(w).index_map().remove_keys(Set::new(|i: u64| i < old(w).start() + d))
        }),
{
    w.set_max(max_length);
    proof {
        w.lemma_window();
        assert(w.index_map() =~= w.index_map().remove_keys(Set::new(|i: u64| i < w.start())));
    }
    while w.span() > w.get_max_length()
        invariant
            w.wf(),
            ascending_between(w.index_map(), w.start(), w.end()),
            w.max_length() == max_length,
            w.end() == old(w).end(),
            !(old(w).start() == 0 && max_length == 0),
            old(w).start() <= w.start(),
            old(w).start() == 0 ==> w.start() == 0,
            old(w).start() >= 1 ==> w.start() <= old(w).start() + excess(span(old(w).start(), w.end()), max_length),
            w.index_map() == old(w).index_map().remove_keys(Set::new(|i: u64| i < w.start())),
        decreases w.end() + 1 - w.start(),
    {
        proof {
            w.lemma_window();
        }
        let ghost before = w.start();
        let popped = pop_ascending(w);
        proof {
            assert(popped is Some);
            assert(w.index_map() =~= old(w).index_map().remove_keys(Set::new(|i: u64| i < w.start())));
        }
    }
    proof {
        w.lemma_window();
    }
}

/// A queue of key-value pairs whose keys ascend strictly.
///
/// The key of each new pair must be larger than the latest key in the queue.
/// The queue can be read by index or by key.
pub struct IndexedAscendingLookupQueue<K, V> {
    window: IndexWindow<K>,
    values: KeyedEntries<K, V>,
}

impl<K: AscendingKey, V> IndexedAscendingLookupQueue<K, V> {
    pub closed spec fn wf(&self) -> bool {
        &&& self.window.wf()
        &&& self.values.wf()
        &&& ascending_between(self.window.index_map(), self.window.start(), self.window.end())
    }

    pub closed spec fn start(&self) -> u64 {
        self.window.start()
    }

    pub closed spec fn end(&self) -> u64 {
        self.window.end()
    }

    pub closed spec fn max(&self) -> u64 {
        self.window.max_length()
    }

    /// The map from index to key.
    pub closed spec fn index_map(&self) -> Map<u64, K> {
        self.window.index_map()
    }

    /// The map from key to value.
    pub closed spec fn value_map(&self) -> Map<K, V> {
        self.values@
    }

    /// Every key in the queue still has its value.
    pub open spec fn values_complete(&self) -> bool {
        forall|i: u64| #[trigger] self.index_map().contains_key(i) ==> self.value_map().contains_key(self.index_map()[i])
    }

    /// `q1` is this queue after `push_back(element)`: the pair gets the index after
    /// the end, and when the queue then holds more than `max_length` indices, the
    /// pair at the front leaves it.
    pub open spec fn pushed(self, q1: Self, element: (K, V)) -> bool {
        let s1: u64 = if self.start() == 0 && self.end() == 0 { 1 } else { self.start() };
        let e1 = (self.end() + 1) as u64;
        let im1 = self.index_map().insert(e1, element.0);
        let vm1 = self.value_map().insert(element.0, element.1);
        &&& q1.max() == self.max()
        &&& q1.end() == e1
        &&& if e1 + 1 - s1 > self.max() {
            &&& q1.start() == s1 + 1
            &&& q1.index_map() =~= im1.remove(s1)
            &&& q1.value_map() =~= vm1.remove(im1[s1])
        } else {
            &&& q1.start() == s1
            &&& q1.index_map() =~= im1
            &&& q1.value_map() =~= vm1
        }
    }

    /// The keys ascend, and the queue holds a key at each index of `start..=end`
    /// once it has held any.
    pub proof fn lemma_shape(&self)
        requires
            self.wf(),
        ensures
            ascending_between(self.index_map(), self.start(), self.end()),
            window_full(self.index_map(), self.start(), self.end()),
            self.start() <= self.end() + 1,
            self.end() < u64::MAX,
            self.start() == 0 ==> self.end() == 0 && self.index_map() == Map::<u64, K>::empty(),
            forall|i: u64| #[trigger]
                self.index_map().contains_key(i) <==> (1 <= self.start() <= i <= self.end()),
    {
        self.window.lemma_window();
        lemma_window_full(&self.window);
        if self.start() == 0 {
            assert(self.index_map() =~= Map::<u64, K>::empty());
        }
    }

    /// An empty queue that keeps at most `max_length` pairs.
    pub fn new(max_length: u64) -> (q: Self)
        ensures
            q.wf(),
            q.start() == 0,
            q.end() == 0,
            q.max() == max_length,
            q.index_map() == Map::<u64, K>::empty(),
            q.value_map() == Map::<K, V>::empty(),
    {
        IndexedAscendingLookupQueue { window: IndexWindow::new(max_length), values: KeyedEntries::new() }
    }

    /// The value of `key`, to be changed in place.
    pub fn get_value_by_key_mut(&mut self, key: &K) -> (r: Option<&mut V>)
        requires
            old(self).wf(),
        ensures
            r.is_some() == old(self).value_map().contains_key(*key),
            r is None ==> *final(self) == *old(self),
            r matches Some(v) ==> {
                &&& *v == old(self).value_map()[*key]
                &&& final(self).wf()
                &&& final(self).value_map() == old(self).value_map().insert(*key, *final(v))
                &&& final(self).index_map() == old(self).index_map()
                &&& final(self).start() == old(self).start()
                &&& final(self).end() == old(self).end()
                &&& final(self).max() == old(self).max()
            },
    {
        self.values.get_mut(key)
    }

    /// Removes the first pair from the queue and returns it.
    pub fn pop_front(&mut self) -> (r: Option<(Option<K>, Option<V>)>)
        requires
            old(self).wf(),
        ensures
            final(self).wf(),
            final(self).end() == old(self).end(),
            final(self).max() == old(self).max(),
            ({
                let s = old(self).start();
                let k = old(self).index_map()[s];
                if old(self).index_map().contains_key(s) {
                    &&& r == Some((Some(k), map_get(old(self).value_map(), k)))
                    &&& final(self).start() == s + 1
                    &&& final(self).index_map() == old(self).index_map().remove(s)
                    &&& final(self).value_map() == old(self).value_map().remove(k)
                } else {
                    &&& r is None
                    &&& final(self).start() == s
                    &&& final(self).index_map() == old(self).index_map()
                    &&& final(self).value_map() == old(self).value_map()
                }
            }),
    {
        match pop_ascending(&mut self.window) {
            Some(k) => {
                let v = self.values.remove(&k);
                Some((Some(k), v))
            },
            None => None,
        }
    }

    /// Adds a pair whose key is larger than the latest key in the queue. When the
    /// queue then holds more than `max_length` pairs, the first pair leaves it.
    pub fn push_back(&mut self, element: (K, V))
        requires
            old(self).wf(),
            old(self).end() + 1 < u64::MAX,
            may_follow(old(self).index_map(), old(self).end(), element.0),
        ensures
            final(self).wf(),
            old(self).pushed(*final(self), element),
    {
        let (k, v) = element;
        let index_key = k.copy_key();
        append_ascending(&mut self.window, index_key);
        self.values.insert(k, v);
        proof {
            self.window.lemma_window();
        }
        if self.window.end_index() - self.window.start_index() + 1 > self.window.get_max_length() {
            self.pop_front();
        }
    }

    /// Removes the value of `key`, keeping its index in the queue.
    pub fn remove_by_key(&mut self, key: &K) -> (r: Option<V>)
        requires
            old(self).wf(),
        ensures
            final(self).wf(),
            final(self).start() == old(self).start(),
            final(self).end() == old(self).end(),
            final(self).max() == old(self).max(),
            final(self).index_map() == old(self).index_map(),
            final(self).value_map() == old(self).value_map().remove(*key),
            r == map_get(old(self).value_map(), *key),
    {
        self.values.remove(key)
    }

    /// Sets the maximum length and removes pairs from the front until the queue fits it.
    pub fn set_max_length(&mut self, max_length: u64)
        requires
            old(self).wf(),
            !(old(self).start() == 0 && max_length == 0),
        ensures
            final(self).wf(),
            final(self).max() == max_length,
            final(self).end() == old(self).end(),
            ({
                let d = if old(self).start() == 0 { 0 } else { excess(span(old(self).start(), old(self).end()), max_length) };
                let new_start = old(self).start() + d;
                &&& final(self).start() == new_start
                &&& final(self).index_map() == old(self).index_map().remove_keys(Set::new(|i: u64| i < new_start))
                &&& final(self).value_map() == old(self).value_map().remove_keys(keys_at(old(self).index_map(), old(self).start(), new_start))
            }),
    {
        self.window.set_max(max_length);
        let ghost s0 = self.start();
        let ghost im0 = self.index_map();
        let ghost vm0 = self.value_map();
        proof {
            self.lemma_shape();
            assert(im0.remove_keys(Set::new(|i: u64| i < s0)) =~= im0);
            assert(vm0.remove_keys(keys_at(im0, s0, s0 as int)) =~= vm0);
        }
        while self.window.span() > self.window.get_max_length()
            invariant
                self.wf(),
                self.max() == max_length,
                self.end() == old(self).end(),
                s0 == old(self).start(),
                im0 == old(self).index_map(),
                vm0 == old(self).value_map(),
                !(s0 == 0 && max_length == 0),
                s0 <= self.start(),
                s0 == 0 ==> self.start() == 0,
                self.start() <= self.end() + 1,
                s0 >= 1 ==> self.start() <= s0 + excess(span(s0, self.end()), max_length),
                self.index_map() == im0.remove_keys(Set::new(|i: u64| i < self.start())),
                self.value_map() == vm0.remove_keys(keys_at(im0, s0, self.start() as int)),
            decreases self.end() + 1 - self.start(),
        {
            proof {
                self.lemma_shape();
            }
            let ghost before = self.start();
            let ghost k = self.index_map()[before];
            let popped = self.pop_front();
            proof {
                assert(popped is Some);
                assert(self.index_map() =~= im0.remove_keys(Set::new(|i: u64| i < self.start())));
                assert(keys_at(im0, s0, self.start() as int) =~= keys_at(im0, s0, before as int).insert(k)) by {
                    assert(im0.contains_key(before));
                    assert forall|kk: K| #[trigger] keys_at(im0, s0, self.start() as int).contains(kk) implies keys_at(im0, s0, before as int).insert(k).contains(kk) by {
                        let i = choose|i: u64| s0 <= i < self.start() && im0.contains_key(i) && im0[i] == kk;
                        if i < before {
                            assert(keys_at(im0, s0, before as int).contains(kk));
                        }
                    }
                    assert forall|kk: K| #[trigger] keys_at(im0, s0, before as int).insert(k).contains(kk) implies keys_at(im0, s0, self.start() as int).contains(kk) by {
                        if kk == k {
                            assert(s0 <= before < self.start() && im0.contains_key(before) && im0[before] == kk);
                        } else {
                            let i = choose|i: u64| s0 <= i < before && im0.contains_key(i) && im0[i] == kk;
                            assert(s0 <= i < self.start() && im0.contains_key(i) && im0[i] == kk);
                        }
                    }
                }
                assert(self.value_map() =~= vm0.remove_keys(keys_at(im0, s0, self.start() as int)));
            }
        }
        proof {
            self.lemma_shape();
        }
    }

    /// Empties the queue; the maximum length stays.
    pub fn clear(&mut self)
        requires
            old(self).wf(),
        ensures
            final(self).wf(),
            final(self).max() == old(self).max(),
            final(self).start() == 0,
            final(self).end() == 0,
            final(self).index_map() == Map::<u64, K>::empty(),
            final(self).value_map() == Map::<K, V>::empty(),
    {
        self.window.reset();
        self.values = KeyedEntries::new();
    }

    /// The value of the key at each index of `start_index..=end_index`.
    pub fn values(&self) -> (r: Vec<Option<&V>>)
        requires
            self.wf(),
            self.values_complete(),
        ensures
            r@.len() == span(self.start(), self.end()),
            forall|j: int| 0 <= j < r@.len() ==> {
                let i = (self.start() + j) as u64;
                same_key_ref(#[trigger] r@[j], if self.index_map().contains_key(i) {
                    Some(self.value_map()[self.index_map()[i]])
                } else {
                    None
                })
            },
    {
        proof {
            self.lemma_shape();
        }
        let mut r: Vec<Option<&V>> = Vec::new();
        let mut index: u64 = self.window.start_index();
        let last: u64 = self.window.end_index() + 1;
        while index < last
            invariant
                self.wf(),
                self.values_complete(),
                last == self.end() + 1,
                self.start() <= index <= last,
                r@.len() == index - self.start(),
                forall|j: int| 0 <= j < r@.len() ==> {
                    let i = (self.start() + j) as u64;
                    same_key_ref(#[trigger] r@[j], if self.index_map().contains_key(i) {
                        Some(self.value_map()[self.index_map()[i]])
                    } else {
                        None
                    })
                },
            decreases last - index,
        {
            r.push(self.get_value_by_index(&index));
            index = index + 1;
        }
        r
    }

    /// The value of the key at `index`.
    pub fn get_value_by_index(&self, index: &u64) -> (r: Option<&V>)
        requires
            self.wf(),
            self.index_map().contains_key(*index) ==> self.value_map().contains_key(self.index_map()[*index]),
        ensures
            same_key_ref(r, if self.index_map().contains_key(*index) {
                Some(self.value_map()[self.index_map()[*index]])
            } else {
                None
            }),
    {
        match self.window.key_at(*index) {
            Some(k) => self.values.get(k),
            None => None,
        }
    }

    /// The value of `key`.
    pub fn get_value_by_key(&self, key: &K) -> (r: Option<&V>)
        requires
            self.wf(),
        ensures
            same_key_ref(r, map_get(self.value_map(), *key)),
    {
        self.values.get(key)
    }

    /// The value of the largest key that precedes `key`.
    pub fn get_previous_value_by_key(&self, key: &K) -> (r: Option<&V>)
        requires
            self.wf(),
        ensures
            match previous_key(self.index_map(), self.start(), self.end(), *key) {
                Some(k) => same_key_ref(r, map_get(self.value_map(), k)),
                None => r is None,
            },
    {
        proof {
            self.lemma_shape();
        }
        let found = self.get_previous_key_by_key(key);
        proof {
            lemma_previous_key(self.index_map(), self.start(), self.end(), *key, match found {
                Some(k) => Some(*k),
                None => None,
            });
        }
        if let Some(k) = found {
            self.get_value_by_key(k)
        } else {
            None
        }
    }

    /// The value of the smallest key that `key` precedes.
    pub fn get_next_value_by_key(&self, key: &K) -> (r: Option<&V>)
        requires
            self.wf(),
        ensures
            match next_key(self.index_map(), self.start(), self.end(), *key) {
                Some(k) => same_key_ref(r, map_get(self.value_map(), k)),
                None => r is None,
            },
    {
        proof {
            self.lemma_shape();
        }
        let found = self.get_next_key_by_key(key);
        proof {
            lemma_next_key(self.index_map(), self.start(), self.end(), *key, match found {
                Some(k) => Some(*k),
                None => None,
            });
        }
        if let Some(k) = found {
            self.get_value_by_key(k)
        } else {
            None
        }
    }
}

impl<K: AscendingKey, V> IndexedAscendingQueueViewer<K> for IndexedAscendingLookupQueue<K, V> {
    open spec fn viewed_start(&self) -> u64 {
        self.start()
    }

    open spec fn viewed_end(&self) -> u64 {
        self.end()
    }

    open spec fn viewed_max_length(&self) -> u64 {
        self.max()
    }

    open spec fn viewed_keys(&self) -> Map<u64, K> {
        self.index_map()
    }

    open spec fn viewer_wf(&self) -> bool {
        self.wf()
    }

    proof fn lemma_viewer_shape(&self) {
        self.lemma_shape();
    }

    fn start_index(&self) -> (r: u64) {
        self.window.start_index()
    }

    fn end_index(&self) -> (r: u64) {
        self.window.end_index()
    }

    fn max_length(&self) -> (r: u64) {
        self.window.get_max_length()
    }

    fn get_key_by_index(&self, index: &u64) -> (r: Option<&K>) {
        self.window.key_at(*index)
    }
}

} // verus!

verus! {

/// A queue of keys in the order in which they were added.
///
/// New keys are expected to be larger than the latest key; a key that is not is
/// still added.
pub struct IndexedAscendingSimpleQueue<K> {
    window: IndexWindow<K>,
}

impl<K: AscendingKey> IndexedAscendingSimpleQueue<K> {
    pub closed spec fn wf(&self) -> bool {
        self.window.wf()
    }

    pub closed spec fn start(&self) -> u64 {
        self.window.start()
    }

    pub closed spec fn end(&self) -> u64 {
        self.window.end()
    }

    pub closed spec fn max(&self) -> u64 {
        self.window.max_length()
    }

    /// The map from index to key.
    pub closed spec fn index_map(&self) -> Map<u64, K> {
        self.window.index_map()
    }

    pub proof fn lemma_shape(&self)
        requires
            self.wf(),
        ensures
            window_full(self.index_map(), self.start(), self.end()),
            self.start() <= self.end() + 1,
            self.end() < u64::MAX,
            self.start() == 0 ==> self.end() == 0 && self.index_map() == Map::<u64, K>::empty(),
            forall|i: u64| #[trigger]
                self.index_map().contains_key(i) <==> (1 <= self.start() <= i <= self.end()),
    {
        self.window.lemma_window();
        lemma_window_full(&self.window);
        if self.start() == 0 {
            assert(self.index_map() =~= Map::<u64, K>::empty());
        }
    }

    /// `q1` is this queue after `push_back(key)`: the key gets the index after the
    /// end, and when the queue then holds more than `max_length` keys, the key at
    /// the front leaves it.
    pub open spec fn pushed(self, q1: Self, key: K) -> bool {
        let s1: u64 = if self.start() == 0 && self.end() == 0 { 1 } else { self.start() };
        let e1 = (self.end() + 1) as u64;
        let im1 = self.index_map().insert(e1, key);
        &&& q1.max() == self.max()
        &&& q1.end() == e1
        &&& if e1 + 1 - s1 > self.max() {
            &&& q1.start() == s1 + 1
            &&& q1.index_map() =~= im1.remove(s1)
        } else {
            &&& q1.start() == s1
            &&& q1.index_map() =~= im1
        }
    }

    /// An empty queue that keeps at most `max_length` keys.
    pub fn new(max_length: u64) -> (q: Self)
        ensures
            q.wf(),
            q.start() == 0,
            q.end() == 0,
            q.max() == max_length,
            q.index_map() == Map::<u64, K>::empty(),
    {
        IndexedAscendingSimpleQueue { window: IndexWindow::new(max_length) }
    }

    /// Adds a key at the end of the queue. When the queue then holds more than
    /// `max_length` keys, the first key leaves it.
    pub fn push_back(&mut self, key: K)
        requires
            old(self).wf(),
            old(self).end() + 1 < u64::MAX,
        ensures
            final(self).wf(),
            old(self).pushed(*final(self), key),
    {
        self.window.append(key);
        proof {
            self.window.lemma_window();
        }
        if self.window.end_index() - self.window.start_index() + 1 > self.window.get_max_length() {
            self.window.pop_front();
        }
    }

    /// Removes the first key from the queue and returns it.
    pub fn pop_front(&mut self) -> (r: Option<K>)
        requires
            old(self).wf(),
        ensures
            final(self).wf(),
            final(self).end() == old(self).end(),
            final(self).max() == old(self).max(),
            old(self).index_map().contains_key(old(self).start()) ==> {
                &&& r == Some(old(self).index_map()[old(self).start()])
                &&& final(self).start() == old(self).start() + 1
                &&& final(self).index_map() == old(self).index_map().remove(old(self).start())
            },
            !old(self).index_map().contains_key(old(self).start()) ==> {
                &&& r.is_none()
                &&& final(self).start() == old(self).start()
                &&& final(self).index_map() == old(self).index_map()
            },
    {
        self.window.pop_front()
    }

    /// Sets the maximum length and removes keys from the front until the queue
    /// fits it, stopping after `pop_budget` removals (at least one) so that the
    /// caller can go on in a later call.
    pub fn set_max_length(&mut self, max_length: u64, pop_budget: u64) -> (r: ProcessingResult)
        requires
            old(self).wf(),
        ensures
            final(self).wf(),
            final(self).max() == max_length,
            final(self).end() == old(self).end(),
            ({
                let budget: nat = if pop_budget == 0 { 1 } else { pop_budget as nat };
                let e = excess(span(old(self).start(), old(self).end()), max_length);
                let d = if old(self).start() == 0 { 0 } else if e < budget { e } else { budget };
                let new_start = old(self).start() + d;
                &&& final(self).start() == new_start
                &&& final(self).index_map() == old(self).index_map().remove_keys(Set::new(|i: u64| i < new_start))
                &&& (r is NeedMoreGas <==> (old(self).start() == 0 && max_length == 0) || (old(self).start() != 0 && e >= budget))
                &&& (r is Done <==> !(r is NeedMoreGas))
            }),
    {
        self.window.set_max(max_length);
        let budget: u64 = if pop_budget == 0 { 1 } else { pop_budget };
        let mut count: u64 = 0;
        proof {
            self.window.lemma_window();
            assert(self.index_map() =~= self.index_map().remove_keys(Set::new(|i: u64| i < self.start())));
        }
        while self.window.span() > self.window.get_max_length()
            invariant
                self.wf(),
                self.max() == max_length,
                self.end() == old(self).end(),
                budget == (if pop_budget == 0 { 1 } else { pop_budget }),
                count < budget,
                old(self).start() == 0 ==> self.start() == 0,
                old(self).start() == 0 && count > 0 ==> max_length == 0,
                old(self).start() != 0 ==> self.start() == old(self).start() + count,
                old(self).start() != 0 ==> count <= excess(span(old(self).start(), old(self).end()), max_length),
                self.index_map() == old(self).index_map().remove_keys(Set::new(|i: u64| i < self.start())),
            decreases budget - count,
        {
            proof {
                self.window.lemma_window();
            }
            self.window.pop_front();
            count = count + 1;
            proof {
                assert(self.index_map() =~= old(self).index_map().remove_keys(Set::new(|i: u64| i < self.start())));
            }
            if count >= budget {
                return ProcessingResult::NeedMoreGas;
            }
        }
        proof {
            self.window.lemma_window();
        }
        ProcessingResult::Done
    }

    /// Clears the queue, index by index, stopping after `removal_budget` indices
    /// (at least one) so that the caller can go on in a later call.
    pub fn clear(&mut self, removal_budget: u64) -> (r: ProcessingResult)
        requires
            old(self).wf(),
        ensures
            final(self).wf(),
            final(self).max() == old(self).max(),
            ({
                let budget: nat = if removal_budget == 0 { 1 } else { removal_budget as nat };
                let n = span(old(self).start(), old(self).end());
                if n >= budget {
                    let new_start = (old(self).start() + budget) as u64;
                    &&& r is NeedMoreGas
                    &&& final(self).start() == new_start
                    &&& final(self).end() == old(self).end()
                    &&& final(self).index_map() == old(self).index_map().remove_keys(Set::new(|i: u64| i < new_start))
                } else {
                    &&& r is Done
                    &&& final(self).start() == 0
                    &&& final(self).end() == 0
                    &&& final(self).index_map() == Map::<u64, K>::empty()
                }
            }),
    {
        proof {
            self.window.lemma_window();
        }
        let budget: u64 = if removal_budget == 0 { 1 } else { removal_budget };
        let n = self.window.span();
        if n >= budget {
            let new_start = self.window.start_index() + budget;
            self.window.advance_start(new_start);
            ProcessingResult::NeedMoreGas
        } else {
            self.window.reset();
            ProcessingResult::Done
        }
    }

    /// Writes pending changes to storage; the queue itself is unchanged.
    pub fn flush(&mut self)
        requires
            old(self).wf(),
        ensures
            *final(self) == *old(self),
    {
    }
}

impl<K: AscendingKey> IndexedAscendingQueueViewer<K> for IndexedAscendingSimpleQueue<K> {
    open spec fn viewed_start(&self) -> u64 {
        self.start()
    }

    open spec fn viewed_end(&self) -> u64 {
        self.end()
    }

    open spec fn viewed_max_length(&self) -> u64 {
        self.max()
    }

    open spec fn viewed_keys(&self) -> Map<u64, K> {
        self.index_map()
    }

    open spec fn viewer_wf(&self) -> bool {
        self.wf()
    }

    proof fn lemma_viewer_shape(&self) {
        self.lemma_shape();
    }

    fn start_index(&self) -> (r: u64) {
        self.window.start_index()
    }

    fn end_index(&self) -> (r: u64) {
        self.window.end_index()
    }

    fn max_length(&self) -> (r: u64) {
        self.window.get_max_length()
    }

    fn get_key_by_index(&self, index: &u64) -> (r: Option<&K>) {
        self.window.key_at(*index)
    }
}

} // verus!

verus! {

/// A queue of keys that ascend strictly: each new key must be larger than the
/// latest key in the queue.
pub struct IndexedOrderedQueue<K> {
    window: IndexWindow<K>,
}

impl<K: AscendingKey> IndexedOrderedQueue<K> {
    pub closed spec fn wf(&self) -> bool {
        &&& self.window.wf()
        &&& ascending_between(self.window.index_map(), self.window.start(), self.window.end())
    }

    pub closed spec fn start(&self) -> u64 {
        self.window.start()
    }

    pub closed spec fn end(&self) -> u64 {
        self.window.end()
    }

    pub closed spec fn max(&self) -> u64 {
        self.window.max_length()
    }

    /// The map from index to key.
    pub closed spec fn index_map(&self) -> Map<u64, K> {
        self.window.index_map()
    }

    pub proof fn lemma_shape(&self)
        requires
            self.wf(),
        ensures
            ascending_between(self.index_map(), self.start(), self.end()),
            window_full(self.index_map(), self.start(), self.end()),
            self.start() <= self.end() + 1,
            self.end() < u64::MAX,
            self.start() == 0 ==> self.end() == 0 && self.index_map() == Map::<u64, K>::empty(),
            forall|i: u64| #[trigger]
                self.index_map().contains_key(i) <==> (1 <= self.start() <= i <= self.end()),
    {
        self.window.lemma_window();
        lemma_window_full(&self.window);
        if self.start() == 0 {
            assert(self.index_map() =~= Map::<u64, K>::empty());
        }
    }

    /// An empty queue that keeps at most `max_length` keys.
    pub fn new(max_length: u64) -> (q: Self)
        ensures
            q.wf(),
            q.start() == 0,
            q.end() == 0,
            q.max() == max_length,
            q.index_map() == Map::<u64, K>::empty(),
    {
        IndexedOrderedQueue { window: IndexWindow::new(max_length) }
    }

    /// Removes the first key from the queue and returns it.
    pub fn pop_front(&mut self) -> (r: Option<K>)
        requires
            old(self).wf(),
        ensures
            final(self).wf(),
            final(self).end() == old(self).end(),
            final(self).max() == old(self).max(),
            old(self).index_map().contains_key(old(self).start()) ==> {
                &&& r == Some(old(self).index_map()[old(self).start()])
                &&& final(self).start() == old(self).start() + 1
                &&& final(self).index_map() == old(self).index_map().remove(old(self).start())
            },
            !old(self).index_map().contains_key(old(self).start()) ==> {
                &&& r.is_none()
                &&& final(self).start() == old(self).start()
                &&& final(self).index_map() == old(self).index_map()
            },
    {
        pop_ascending(&mut self.window)
    }

    /// Adds a key larger than the latest key in the queue. When the queue then
    /// holds more than `max_length` keys, the first key leaves it.
    pub fn push_back(&mut self, element: K)
        requires
            old(self).wf(),
            old(self).end() + 1 < u64::MAX,
            may_follow(old(self).index_map(), old(self).end(), element),
        ensures
            final(self).wf(),
            final(self).max() == old(self).max(),
            final(self).end() == old(self).end() + 1,
            ({
                let s1: u64 = if old(self).start() == 0 && old(self).end() == 0 { 1 } else { old(self).start() };
                let e1 = (old(self).end() + 1) as u64;
                let im1 = old(self).index_map().insert(e1, element);
                if e1 + 1 - s1 > old(self).max() {
                    &&& final(self).start() == s1 + 1
                    &&& final(self).index_map() == im1.remove(s1)
                } else {
                    &&& final(self).start() == s1
                    &&& final(self).index_map() == im1
                }
            }),
    {
        append_ascending(&mut self.window, element);
        proof {
            self.window.lemma_window();
        }
        if self.window.end_index() - self.window.start_index() + 1 > self.window.get_max_length() {
            pop_ascending(&mut self.window);
        }
    }

    /// Sets the maximum length and removes keys from the front until the queue fits it.
    pub fn set_max_length(&mut self, max_length: u64)
        requires
            old(self).wf(),
            !(old(self).start() == 0 && max_length == 0),
        ensures
            final(self).wf(),
            final(self).max() == max_length,
            final(self).end() == old(self).end(),
            ({
                let d = if old(self).start() == 0 { 0 } else { excess(span(old(self).start(), old(self).end()), max_length) };
                &&& final(self).start() == old(self).start() + d
                &&& final(self).index_map() == old(self).index_map().remove_keys(Set::new(|i: u64| i < old(self).start() + d))
            }),
    {
        trim_ascending(&mut self.window, max_length);
    }

    /// Empties the queue; the maximum length stays.
    pub fn clear(&mut self)
        requires
            old(self).wf(),
        ensures
            final(self).wf(),
            final(self).max() == old(self).max(),
            final(self).start() == 0,
            final(self).end() == 0,
            final(self).index_map() == Map::<u64, K>::empty(),
    {
        self.window.reset();
    }

    pub fn start_index(&self) -> (r: u64)
        requires
            self.wf(),
        ensures
            r == self.start(),
    {
        self.window.start_index()
    }

    pub fn end_index(&self) -> (r: u64)
        requires
            self.wf(),
        ensures
            r == self.end(),
    {
        self.window.end_index()
    }

    pub fn max_length(&self) -> (r: u64)
        requires
            self.wf(),
        ensures
            r == self.max(),
    {
        self.window.get_max_length()
    }

    /// The key at `end_index`.
    pub fn latest_key(&self) -> (r: Option<&K>)
        requires
            self.wf(),
        ensures
            same_key_ref(r, map_get(self.index_map(), self.end())),
    {
        self.window.key_at(self.window.end_index())
    }

    /// Current length of the queue.
    pub fn len(&self) -> (r: u64)
        requires
            self.wf(),
        ensures
            r == reported_len(self.index_map(), self.start(), self.end(), self.max()),
    {
        IndexedAscendingQueueViewer::len(self)
    }

    /// The key at each index of `start_index..=end_index`.
    pub fn keys(&self) -> (r: Vec<Option<&K>>)
        requires
            self.wf(),
        ensures
            r@.len() == span(self.start(), self.end()),
            forall|j: int| 0 <= j < r@.len() ==> same_key_ref(#[trigger] r@[j],
                map_get(self.index_map(), (self.start() + j) as u64)),
    {
        IndexedAscendingQueueViewer::keys(self)
    }

    /// The key at `index`.
    pub fn get_key(&self, index: &u64) -> (r: Option<&K>)
        requires
            self.wf(),
        ensures
            same_key_ref(r, map_get(self.index_map(), *index)),
    {
        self.window.key_at(*index)
    }

    /// The keys at up to fifty indices from `start_index` on (from the queue's
    /// start when that is later), `quantity` of them when it is given.
    pub fn get_slice_of(&self, start_index: &u64, quantity: Option<u64>) -> (r: Vec<Option<&K>>)
        requires
            self.wf(),
            quantity != Some(0u64),
            slice_first(self.start(), *start_index) + 49 <= u64::MAX,
        ensures
            ({
                let first = slice_first(self.start(), *start_index);
                let last = slice_last(self.start(), self.end(), *start_index, quantity);
                let avail = indices_from(first, self.end());
                &&& r@.len() == span(first, last)
                &&& r@.len() == (if slice_cap(quantity) < avail { slice_cap(quantity) } else { avail })
                &&& forall|j: int| 0 <= j < r@.len() ==> same_key_ref(#[trigger] r@[j],
                    map_get(self.index_map(), (first + j) as u64))
            }),
    {
        proof {
            self.lemma_shape();
            law_slice_length(self.start(), self.end(), *start_index, quantity);
        }
        let mut results: Vec<Option<&K>> = Vec::new();
        let queue_start = self.window.start_index();
        let queue_end = self.window.end_index();
        let first: u64 = if queue_start > *start_index { queue_start } else { *start_index };
        let extent: u64 = match quantity {
            Some(q) => if q > 50 { 49 } else { q - 1 },
            None => 49,
        };
        let mut last: u64 = first + extent;
        last = if last < queue_end { last } else { queue_end };
        let stop: u64 = last + 1;
        let mut index: u64 = first;
        while index < stop
            invariant
                self.wf(),
                first == slice_first(self.start(), *start_index),
                last == slice_last(self.start(), self.end(), *start_index, quantity),
                stop == last + 1,
                first <= index,
                index <= stop || index == first,
                results@.len() == (if index >= first { index - first } else { 0 }),
                forall|j: int| 0 <= j < results@.len() ==> same_key_ref(#[trigger] results@[j],
                    map_get(self.index_map(), (first + j) as u64)),
            decreases stop - index,
        {
            results.push(self.window.key_at(index));
            index = index + 1;
        }
        results
    }

    pub fn is_empty(&self) -> (r: bool)
        requires
            self.wf(),
        ensures
            r == (reported_len(self.index_map(), self.start(), self.end(), self.max()) == 0),
    {
        self.len() == 0
    }

    /// Binary search for the index of `key`.
    pub fn get_index_of_key(&self, key: &K) -> (r: Option<u64>)
        requires
            self.wf(),
            self.start() != 0,
        ensures
            r matches Some(i) ==> self.start() <= i <= self.end() && self.index_map()[i] == *key,
            r.is_none() <==> !(exists|i: u64|
                self.start() <= i <= self.end() && #[trigger] self.index_map()[i] == *key),
    {
        proof {
            self.lemma_shape();
        }
        let r = IndexedAscendingQueueViewer::get_index_of_key(self, key);
        proof {
            if r.is_some() {
                let i = r.unwrap();
                assert(self.start() <= i <= self.end() && self.index_map()[i] == *key);
            }
            if exists|i: u64| self.start() <= i <= self.end() && #[trigger] self.index_map()[i] == *key {
                let i = choose|i: u64| self.start() <= i <= self.end() && #[trigger] self.index_map()[i] == *key;
                assert(self.index_map().contains_key(i));
            }
        }
        r
    }

    /// The largest key that precedes `key`.
    pub fn get_previous_by_key(&self, key: &K) -> (r: Option<&K>)
        requires
            self.wf(),
            self.start() != 0,
        ensures
            same_key_ref(r, previous_key(self.index_map(), self.start(), self.end(), *key)),
    {
        proof {
            self.lemma_shape();
        }
        let r = IndexedAscendingQueueViewer::get_previous_key_by_key(self, key);
        proof {
            lemma_previous_key(self.index_map(), self.start(), self.end(), *key, match r {
                Some(k) => Some(*k),
                None => None,
            });
        }
        r
    }

    /// The smallest key that `key` precedes.
    pub fn get_next_by_key(&self, key: &K) -> (r: Option<&K>)
        requires
            self.wf(),
            self.start() != 0,
        ensures
            same_key_ref(r, next_key(self.index_map(), self.start(), self.end(), *key)),
    {
        proof {
            self.lemma_shape();
        }
        let r = IndexedAscendingQueueViewer::get_next_key_by_key(self, key);
        proof {
            lemma_next_key(self.index_map(), self.start(), self.end(), *key, match r {
                Some(k) => Some(*k),
                None => None,
            });
        }
        r
    }
}

impl<K: AscendingKey> IndexedAscendingQueueViewer<K> for IndexedOrderedQueue<K> {
    open spec fn viewed_start(&self) -> u64 {
        self.start()
    }

    open spec fn viewed_end(&self) -> u64 {
        self.end()
    }

    open spec fn viewed_max_length(&self) -> u64 {
        self.max()
    }

    open spec fn viewed_keys(&self) -> Map<u64, K> {
        self.index_map()
    }

    open spec fn viewer_wf(&self) -> bool {
        self.wf()
    }

    proof fn lemma_viewer_shape(&self) {
        self.lemma_shape();
    }

    fn start_index(&self) -> (r: u64) {
        self.window.start_index()
    }

    fn end_index(&self) -> (r: u64) {
        self.window.end_index()
    }

    fn max_length(&self) -> (r: u64) {
        self.window.get_max_length()
    }

    fn get_key_by_index(&self, index: &u64) -> (r: Option<&K>) {
        self.window.key_at(*index)
    }
}

/// The keys of a queue ascend: a key at a lower index precedes a key at a higher
/// one.
pub proof fn law_ascending_keys<K: AscendingKey, V>(q: IndexedAscendingLookupQueue<K, V>, i: u64, j: u64)
    requires
        q.wf(),
        q.index_map().contains_key(i),
        q.index_map().contains_key(j),
        i < j,
    ensures
        q.index_map()[i].precedes(q.index_map()[j]),
{
    q.lemma_shape();
}

/// A pushed pair can be read back by its key, and its key is the latest, as long
/// as the queue may hold a pair at all.
pub proof fn law_ascending_push_back_then_get<K: AscendingKey, V>(
    q0: IndexedAscendingLookupQueue<K, V>,
    q1: IndexedAscendingLookupQueue<K, V>,
    element: (K, V),
)
    requires
        q0.wf(),
        may_follow(q0.index_map(), q0.end(), element.0),
        q0.pushed(q1, element),
        q0.max() >= 1,
    ensures
        q1.value_map().contains_key(element.0),
        q1.value_map()[element.0] == element.1,
        q1.index_map().contains_key(q1.end()),
        q1.index_map()[q1.end()] == element.0,
{
    q0.lemma_shape();
    let s1: u64 = if q0.start() == 0 && q0.end() == 0 { 1 } else { q0.start() };
    let e1 = (q0.end() + 1) as u64;
    let im1 = q0.index_map().insert(e1, element.0);
    if e1 + 1 - s1 > q0.max() {
        assert(s1 < e1);
        assert(q0.index_map().contains_key(s1));
        assert(im1[s1] == q0.index_map()[s1]);
        if s1 < q0.end() {
            assert(q0.index_map()[s1].precedes(q0.index_map()[q0.end()]));
            K::lemma_precedes_transitive(q0.index_map()[s1], q0.index_map()[q0.end()], element.0);
        }
        K::lemma_precedes_irreflexive(element.0);
    }
}

/// Pushing keeps a queue within its maximum length.
pub proof fn law_ascending_push_back_bounded<K: AscendingKey, V>(
    q0: IndexedAscendingLookupQueue<K, V>,
    q1: IndexedAscendingLookupQueue<K, V>,
    element: (K, V),
)
    requires
        q0.wf(),
        q0.pushed(q1, element),
        q0.start() == 0 || span(q0.start(), q0.end()) <= q0.max(),
    ensures
        span(q1.start(), q1.end()) <= q1.max(),
{
    q0.lemma_shape();
}

/// The keys of a simple queue ascend as long as each pushed key is larger than
/// the latest key in the queue.
pub proof fn law_simple_push_keeps_ascending<K: AscendingKey>(
    q0: IndexedAscendingSimpleQueue<K>,
    q1: IndexedAscendingSimpleQueue<K>,
    key: K,
)
    requires
        q0.wf(),
        q0.end() + 1 < u64::MAX,
        ascending_between(q0.index_map(), q0.start(), q0.end()),
        may_follow(q0.index_map(), q0.end(), key),
        q0.pushed(q1, key),
    ensures
        ascending_between(q1.index_map(), q1.start(), q1.end()),
{
    q0.lemma_shape();
    let s1: u64 = if q0.start() == 0 && q0.end() == 0 { 1 } else { q0.start() };
    let e1 = (q0.end() + 1) as u64;
    let im1 = q0.index_map().insert(e1, key);
    if q0.start() == 0 {
        assert(ascending_between(im1, s1, e1)) by {
            assert forall|i: u64, j: u64| #![trigger im1[i], im1[j]] s1 <= i < j <= e1 implies im1[i].precedes(im1[j]) by {}
        }
    } else {
        lemma_ascending_append(q0.index_map(), q0.start(), q0.end(), key);
    }
    if e1 + 1 - s1 > q0.max() {
        assert(im1.remove(s1) =~= im1.remove_keys(set![s1]));
        lemma_ascending_suffix(im1, s1, e1, set![s1], (s1 + 1) as u64);
    }
}

} // verus!

