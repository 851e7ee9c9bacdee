use vstd::prelude::*;
use crate::index_window::{ascending_between, lemma_run_above, lemma_run_below, map_get, reported_len, span, IndexWindow};
use crate::keyed_entries::KeyedEntries;
use crate::ordering::AscendingKey;

verus! {

/// The keys stored at indices `from..to` of `index_map`.
pub open spec fn keys_at<K>(index_map: Map<u64, K>, from: u64, to: int) -> Set<K> {
    Set::new(|k: K| exists|i: u64| from <= i < to && index_map.contains_key(i) && index_map[i] == k)
}

/// The number of keys that `set_max_length` takes off the front of a run of
/// `span` indices to bring it down to `max_length`.
pub open spec fn excess(span: nat, max_length: u64) -> nat {
    if span > max_length {
        (span - max_length) as nat
    } else {
        0
    }
}

/// The length of a slice asked for with `quantity`: `quantity` itself, fifty at most,
/// and fifty when no quantity is given.
pub open spec fn slice_extent(quantity: Option<u64>) -> u64 {
    match quantity {
        Some(q) => if q > 50 { 49 } else { (q - 1) as u64 },
        None => 49,
    }
}

/// First index of a slice: the asked index, but not before the queue's start.
pub open spec fn slice_first(queue_start: u64, asked: u64) -> u64 {
    if queue_start > asked { queue_start } else { asked }
}

/// Last index of a slice: fifty indices on at most, and not past the queue's end.
pub open spec fn slice_last(queue_start: u64, queue_end: u64, asked: u64, quantity: Option<u64>) -> u64 {
    let last = slice_first(queue_start, asked) + slice_extent(quantity);
    if last < queue_end { last as u64 } else { queue_end }
}

/// How many indices a slice asked for with `quantity` holds: `quantity` itself
/// when it is given and at most fifty, else fifty.
pub open spec fn slice_cap(quantity: Option<u64>) -> int {
    match quantity {
        Some(q) => if q > 50 { 50 } else { q as int },
        None => 50,
    }
}

/// How many indices a queue ending at `queue_end` holds from `first` on.
pub open spec fn indices_from(first: u64, queue_end: u64) -> int {
    if queue_end + 1 >= first { queue_end + 1 - first } else { 0 }
}

/// A slice holds as many indices as it asks for, fifty when it names no quantity
/// and never more than fifty, unless the queue ends before: then it holds every
/// index from its first one to the queue's end.
pub proof fn law_slice_length(queue_start: u64, queue_end: u64, asked: u64, quantity: Option<u64>)
    requires
        quantity != Some(0u64),
        slice_first(queue_start, asked) + 49 <= u64::MAX,
    ensures
        ({
            let first = slice_first(queue_start, asked);
            let n = span(first, slice_last(queue_start, queue_end, asked, quantity));
            let avail = indices_from(first, queue_end);
            let cap = slice_cap(quantity);
            &&& n == (if cap < avail { cap } else { avail })
            &&& quantity is None && avail >= 50 ==> n == 50
            &&& n <= 50
        }),
{
}

/// A queue of key-value pairs in the order in which they were added.
///
/// Each pair gets the next index: the first pair index `1`, the next `2`, and so on.
/// `index_map` maps each index in `start_index..=end_index` to its key, and
/// `value_map` maps each key to its value. When the queue holds more than
/// `max_length` pairs, the oldest ones leave it.
///
/// Lookups by key with a binary search assume that keys were added in strictly
/// ascending order.
pub struct IndexedLookupQueue<K, V> {
    window: IndexWindow<K>,
    values: KeyedEntries<K, V>,
}

impl<K: AscendingKey, V: Clone> IndexedLookupQueue<K, V> {
    pub closed spec fn wf(&self) -> bool {
        self.window.wf() && self.values.wf()
    }

    pub closed spec fn start(&self) -> u64 {
        self.window.start()
    }

    pub closed spec fn end(&self) -> u64 {
        self.window.end()
    }

    pub closed spec fn max(&self) -> u64 {
        self.window.max_length()
    }

    /// The map from index to key.
    pub closed spec fn index_map(&self) -> Map<u64, K> {
        self.window.index_map()
    }

    /// The map from key to value.
    pub closed spec fn value_map(&self) -> Map<K, V> {
        self.values@
    }

    /// Every key in the queue still has its value.
    pub open spec fn values_complete(&self) -> bool {
        forall|i: u64| #[trigger] self.index_map().contains_key(i) ==> self.value_map().contains_key(self.index_map()[i])
    }

    /// The keys at `start..=end` are strictly ascending.
    pub open spec fn is_ascending(&self) -> bool {
        ascending_between(self.index_map(), self.start(), self.end())
    }

    /// The value at `index`, cloned, when the queue holds a key there.
    pub open spec fn value_at_matches(&self, index: u64, r: Option<V>) -> bool {
        if self.index_map().contains_key(index) {
            r matches Some(v) && cloned(self.value_map()[self.index_map()[index]], v)
        } else {
            r is None
        }
    }

    /// `q1` is this queue after `push_back(element)`: the pair gets the index after
    /// the end, and when the queue then holds more than `max_length` indices, the
    /// pair at the front leaves it.
    pub open spec fn pushed(self, q1: Self, element: (K, V)) -> bool {
        let s1: u64 = if self.start() == 0 && self.end() == 0 { 1 } else { self.start() };
        let e1 = (self.end() + 1) as u64;
        let im1 = self.index_map().insert(e1, element.0);
        let vm1 = self.value_map().insert(element.0, element.1);
        &&& q1.max() == self.max()
        &&& q1.end() == e1
        &&& if e1 + 1 - s1 > self.max() {
            &&& q1.start() == s1 + 1
            &&& q1.index_map() == im1.remove(s1)
            &&& q1.value_map() == vm1.remove(im1[s1])
        } else {
            &&& q1.start() == s1
            &&& q1.index_map() == im1
            &&& q1.value_map() == vm1
        }
    }

    /// `q1` is this queue after `pop_front` returned `r`: the pair at the front
    /// leaves it and is returned, when there is one.
    pub open spec fn popped(self, q1: Self, r: Option<(Option<K>, Option<V>)>) -> bool {
        let s = self.start();
        let k = self.index_map()[s];
        &&& q1.end() == self.end()
        &&& q1.max() == self.max()
        &&& if self.index_map().contains_key(s) {
            &&& r == Some((Some(k), map_get(self.value_map(), k)))
            &&& q1.start() == s + 1
            &&& q1.index_map() == self.index_map().remove(s)
            &&& q1.value_map() == self.value_map().remove(k)
        } else {
            &&& r is None
            &&& q1.start() == s
            &&& q1.index_map() == self.index_map()
            &&& q1.value_map() == self.value_map()
        }
    }

    /// `q1` is this queue after `set_max_length(max_length)`: the pairs at the
    /// front that do not fit leave it.
    pub open spec fn trimmed(self, q1: Self, max_length: u64) -> bool {
        let d = if self.start() == 0 { 0 } else { excess(span(self.start(), self.end()), max_length) };
        let new_start = self.start() + d;
        &&& q1.max() == max_length
        &&& q1.end() == self.end()
        &&& q1.start() == new_start
        &&& q1.index_map() == self.index_map().remove_keys(Set::new(|i: u64| i < new_start))
        &&& q1.value_map() == self.value_map().remove_keys(keys_at(self.index_map(), self.start(), new_start))
    }

    /// The shape of a well-formed queue: the indices in use are exactly `start..=end`,
    /// and a queue that never held a key has `start == end == 0`.
    pub proof fn lemma_shape(&self)
        requires
            self.wf(),
        ensures
            self.start() <= self.end() + 1,
            self.end() < u64::MAX,
            self.start() == 0 ==> self.end() == 0 && self.index_map() == Map::<u64, K>::empty(),
            forall|i: u64| #[trigger]
                self.index_map().contains_key(i) <==> (1 <= self.start() <= i <= self.end()),
    {
        self.window.lemma_window();
        if self.start() == 0 {
            assert(self.index_map() =~= Map::<u64, K>::empty());
        }
    }

    /// An empty queue that keeps at most `max_length` pairs.
    pub fn new(max_length: u64) -> (q: Self)
        ensures
            q.wf(),
            q.start() == 0,
            q.end() == 0,
            q.max() == max_length,
            q.index_map() == Map::<u64, K>::empty(),
            q.value_map() == Map::<K, V>::empty(),
    {
        IndexedLookupQueue { window: IndexWindow::new(max_length), values: KeyedEntries::new() }
    }

    /// Removes the first pair from the queue and returns it.
    pub fn pop_front(&mut self) -> (r: Option<(Option<K>, Option<V>)>)
        requires
            old(self).wf(),
        ensures
            final(self).wf(),
            old(self).popped(*final(self), r),
    {
        match self.window.pop_front() {
            Some(k) => {
                let v = self.values.remove(&k);
                Some((Some(k), v))
            },
            None => None,
        }
    }

    /// Adds a pair at the end of the queue. When the queue then holds more than
    /// `max_length` pairs, the first pair leaves it.
    pub fn push_back(&mut self, element: (K, V))
        requires
            old(self).wf(),
            old(self).end() + 1 < u64::MAX,
        ensures
            final(self).wf(),
            final(self).max() == old(self).max(),
            final(self).end() == old(self).end() + 1,
            old(self).pushed(*final(self), element),
    {
        let (k, v) = element;
        let index_key = k.copy_key();
        self.window.append(index_key);
        self.values.insert(k, v);
        proof {
            self.window.lemma_window();
        }
        if self.window.end_index() - self.window.start_index() + 1 > self.window.get_max_length() {
            self.pop_front();
        }
    }

    /// Removes the value of `key`, keeping its index in the queue.
    pub fn remove_by_key(&mut self, key: &K) -> (r: Option<V>)
        requires
            old(self).wf(),
        ensures
            final(self).wf(),
            final(self).start() == old(self).start(),
            final(self).end() == old(self).end(),
            final(self).max() == old(self).max(),
            final(self).index_map() == old(self).index_map(),
            final(self).value_map() == old(self).value_map().remove(*key),
            r == map_get(old(self).value_map(), *key),
    {
        self.values.remove(key)
    }

    /// Sets the maximum length and removes pairs from the front until the queue fits it.
    pub fn set_max_length(&mut self, max_length: u64)
        requires
            old(self).wf(),
            !(old(self).start() == 0 && max_length == 0),
        ensures
            final(self).wf(),
            old(self).trimmed(*final(self), max_length),
    {
        self.window.set_max(max_length);
        let ghost s0 = self.start();
        let ghost im0 = self.index_map();
        let ghost vm0 = self.value_map();
        proof {
            self.lemma_shape();
            assert(im0.remove_keys(Set::new(|i: u64| i < s0)) =~= im0);
            assert(vm0.remove_keys(keys_at(im0, s0, s0 as int)) =~= vm0);
        }
        while self.window.span() > self.window.get_max_length()
            invariant
                self.wf(),
                self.max() == max_length,
                self.end() == old(self).end(),
                s0 == old(self).start(),
                im0 == old(self).index_map(),
                vm0 == old(self).value_map(),
                !(s0 == 0 && max_length == 0),
                s0 <= self.start(),
                s0 == 0 ==> self.start() == 0,
                self.start() <= self.end() + 1,
                s0 >= 1 ==> self.start() <= s0 + excess(span(s0, self.end()), max_length),
                self.index_map() == im0.remove_keys(Set::new(|i: u64| i < self.start())),
                self.value_map() == vm0.remove_keys(keys_at(im0, s0, self.start() as int)),
            decreases self.end() + 1 - self.start(),
        {
            proof {
                self.lemma_shape();
            }
            let ghost before = self.start();
            let ghost k = self.index_map()[before];
            let popped = self.pop_front();
            proof {
                assert(popped is Some);
                assert(self.index_map() =~= im0.remove_keys(Set::new(|i: u64| i < self.start())));
                assert(keys_at(im0, s0, self.start() as int) =~= keys_at(im0, s0, before as int).insert(k)) by {
                    assert(im0.contains_key(before));
                    assert forall|kk: K| #[trigger] keys_at(im0, s0, self.start() as int).contains(kk) implies keys_at(im0, s0, before as int).insert(k).contains(kk) by {
                        let i = choose|i: u64| s0 <= i < self.start() && im0.contains_key(i) && im0[i] == kk;
                        if i < before {
                            assert(keys_at(im0, s0, before as int).contains(kk));
                        }
                    }
                    assert forall|kk: K| #[trigger] keys_at(im0, s0, before as int).insert(k).contains(kk) implies keys_at(im0, s0, self.start() as int).contains(kk) by {
                        if kk == k {
                            assert(s0 <= before < self.start() && im0.contains_key(before) && im0[before] == kk);
                        } else {
                            let i = choose|i: u64| s0 <= i < before && im0.contains_key(i) && im0[i] == kk;
                            assert(s0 <= i < self.start() && im0.contains_key(i) && im0[i] == kk);
                        }
                    }
                }
                assert(self.value_map() =~= vm0.remove_keys(keys_at(im0, s0, self.start() as int)));
            }
        }
        proof {
            self.lemma_shape();
        }
    }

    /// Empties the queue; the maximum length stays.
    pub fn clear(&mut self)
        requires
            old(self).wf(),
        ensures
            final(self).wf(),
            final(self).max() == old(self).max(),
            final(self).start() == 0,
            final(self).end() == 0,
            final(self).index_map() == Map::<u64, K>::empty(),
            final(self).value_map() == Map::<K, V>::empty(),
    {
        self.window.reset();
        self.values = KeyedEntries::new();
    }

    pub fn start_index(&self) -> (r: u64)
        requires
            self.wf(),
        ensures
            r == self.start(),
    {
        self.window.start_index()
    }

    pub fn end_index(&self) -> (r: u64)
        requires
            self.wf(),
        ensures
            r == self.end(),
    {
        self.window.end_index()
    }

    pub fn max_length(&self) -> (r: u64)
        requires
            self.wf(),
        ensures
            r == self.max(),
    {
        self.window.get_max_length()
    }

    /// Current length of the queue.
    pub fn len(&self) -> (r: u64)
        requires
            self.wf(),
        ensures
            r == reported_len(self.index_map(), self.start(), self.end(), self.max()),
    {
        self.window.reported_len()
    }

    /// The key at each index of `start_index..=end_index`.
    pub fn keys(&self) -> (r: Vec<Option<K>>)
        requires
            self.wf(),
        ensures
            r@ == Seq::new(span(self.start(), self.end()), |j: int| map_get(self.index_map(), (self.start() + j) as u64)),
    {
        self.window.keys()
    }

    /// The value of the key at each index of `start_index..=end_index`.
    pub fn values(&self) -> (r: Vec<Option<V>>)
        requires
            self.wf(),
            self.values_complete(),
        ensures
            r@.len() == span(self.start(), self.end()),
            forall|j: int| 0 <= j < r@.len() ==> self.value_at_matches((self.start() + j) as u64, #[trigger] r@[j]),
    {
        proof {
            self.lemma_shape();
        }
        let mut r: Vec<Option<V>> = Vec::new();
        let mut index: u64 = self.window.start_index();
        let last: u64 = self.window.end_index() + 1;
        while index < last
            invariant
                self.wf(),
                self.values_complete(),
                last == self.end() + 1,
                self.start() <= index <= last,
                r@.len() == index - self.start(),
                forall|j: int| 0 <= j < r@.len() ==> self.value_at_matches((self.start() + j) as u64, #[trigger] r@[j]),
            decreases last - index,
        {
            let v = self.get_value_by_index(&index);
            r.push(v);
            index = index + 1;
        }
        r
    }

    /// The key at `index`.
    pub fn get_key(&self, index: &u64) -> (r: Option<K>)
        requires
            self.wf(),
        ensures
            r == map_get(self.index_map(), *index),
    {
        match self.window.key_at(*index) {
            Some(k) => Some(k.copy_key()),
            None => None,
        }
    }

    /// The value of the key at `index`.
    pub fn get_value_by_index(&self, index: &u64) -> (r: Option<V>)
        requires
            self.wf(),
            self.index_map().contains_key(*index) ==> self.value_map().contains_key(self.index_map()[*index]),
        ensures
            self.value_at_matches(*index, r),
    {
        match self.window.key_at(*index) {
            Some(k) => {
                match self.values.get(k) {
                    Some(v) => Some(v.clone()),
                    None => None,
                }
            },
            None => None,
        }
    }

    /// The value of `key`.
    pub fn get_value_by_key(&self, key: &K) -> (r: Option<V>)
        requires
            self.wf(),
        ensures
            r.is_some() == self.value_map().contains_key(*key),
            r matches Some(v) ==> cloned(self.value_map()[*key], v),
    {
        match self.values.get(key) {
            Some(v) => Some(v.clone()),
            None => None,
        }
    }

    /// The pairs at up to fifty indices from `start_index` on (from the queue's
    /// start when that is later), `quantity` of them when it is given.
    pub fn get_slice_of(&self, start_index: &u64, quantity: Option<u64>) -> (r: Vec<(Option<K>, Option<V>)>)
        requires
            self.wf(),
            self.values_complete(),
            quantity != Some(0u64),
            slice_first(self.start(), *start_index) + 49 <= u64::MAX,
        ensures
            ({
                let first = slice_first(self.start(), *start_index);
                let last = slice_last(self.start(), self.end(), *start_index, quantity);
                let avail = indices_from(first, self.end());
                &&& r@.len() == span(first, last)
                &&& r@.len() == (if slice_cap(quantity) < avail { slice_cap(quantity) } else { avail })
                &&& forall|j: int| 0 <= j < r@.len() ==> {
                    &&& (#[trigger] r@[j]).0 == map_get(self.index_map(), (first + j) as u64)
                    &&& self.value_at_matches((first + j) as u64, r@[j].1)
                }
            }),
    {
        proof {
            self.lemma_shape();
            law_slice_length(self.start(), self.end(), *start_index, quantity);
        }
        let mut results: Vec<(Option<K>, Option<V>)> = Vec::new();
        let queue_start = self.window.start_index();
        let queue_end = self.window.end_index();
        let first: u64 = if queue_start > *start_index { queue_start } else { *start_index };
        let extent: u64 = match quantity {
            Some(q) => if q > 50 { 49 } else { q - 1 },
            None => 49,
        };
        let mut last: u64 = first + extent;
        last = if last < queue_end { last } else { queue_end };
        let stop: u64 = last + 1;
        let mut index: u64 = first;
        while index < stop
            invariant
                self.wf(),
                self.values_complete(),
                first == slice_first(self.start(), *start_index),
                last == slice_last(self.start(), self.end(), *start_index, quantity),
                stop == last + 1,
                first <= index,
                index <= stop || index == first,
                results@.len() == (if index >= first { index - first } else { 0 }),
                forall|j: int| 0 <= j < results@.len() ==> {
                    &&& (#[trigger] results@[j]).0 == map_get(self.index_map(), (first + j) as u64)
                    &&& self.value_at_matches((first + j) as u64, results@[j].1)
                },
            decreases stop - index,
        {
            let k = self.get_key(&index);
            let v = self.get_value_by_index(&index);
            results.push((k, v));
            index = index + 1;
        }
        results
    }

    pub fn contains_key(&self, key: &K) -> (r: bool)
        requires
            self.wf(),
        ensures
            r == self.value_map().contains_key(*key),
    {
        self.values.contains_key(key)
    }

    pub fn is_empty(&self) -> (r: bool)
        requires
            self.wf(),
        ensures
            r == (reported_len(self.index_map(), self.start(), self.end(), self.max()) == 0),
    {
        self.len() == 0
    }

    /// Binary search for the index of `key`.
    pub fn get_index_of_key(&self, key: &K) -> (r: Option<u64>)
        requires
            self.wf(),
            self.start() != 0,
        ensures
            r matches Some(i) ==> self.start() <= i <= self.end() && self.index_map()[i] == *key,
            self.is_ascending() ==> (r.is_none() <==> !(exists|i: u64|
                self.start() <= i <= self.end() && #[trigger] self.index_map()[i] == *key)),
    {
        proof {
            self.lemma_shape();
        }
        let mut start = self.window.start_index();
        let mut end = self.window.end_index();
        while start <= end
            invariant
                self.wf(),
                1 <= self.start(),
                self.start() <= start,
                end <= self.end(),
                start <= end + 1,
                self.end() < u64::MAX,
                forall|i: u64| #[trigger] self.index_map().contains_key(i) <==> (self.start() <= i <= self.end()),
                self.is_ascending() ==> forall|i: u64| #![trigger self.index_map()[i]]
                    (self.start() <= i < start || end < i <= self.end()) ==> self.index_map()[i] != *key,
            decreases end + 1 - start,
        {
            let mid = start + (end - start) / 2;
            let mid_key = match self.window.key_at(mid) {
                Some(k) => k,
                None => { return None; },
            };
            if mid_key.is_same_key(key) {
                return Some(mid);
            } else if mid_key.is_before(key) {
                proof {
                    if self.is_ascending() {
                        lemma_run_below(self.index_map(), self.start(), self.end(), mid, *key);
                    }
                }
                start = mid + 1;
            } else {
                proof {
                    K::lemma_precedes_total(*mid_key, *key);
                    if self.is_ascending() {
                        lemma_run_above(self.index_map(), self.start(), self.end(), mid, *key);
                    }
                }
                end = mid - 1;
            }
        }
        None
    }

    /// The value whose index is one less than that of `key`.
    pub fn get_previous_by_key(&self, key: &K) -> (r: Option<V>)
        requires
            self.wf(),
            self.start() != 0,
            self.values_complete(),
        ensures
            r matches Some(v) ==> exists|i: u64| #![trigger self.index_map()[i]]
                self.start() < i <= self.end() && self.index_map()[i] == *key
                    && cloned(self.value_map()[self.index_map()[(i - 1) as u64]], v),
            self.is_ascending() ==> (r.is_some() <==> exists|i: u64| #![trigger self.index_map()[i]]
                self.start() < i <= self.end() && self.index_map()[i] == *key),
    {
        proof {
            self.lemma_shape();
        }
        match self.get_index_of_key(key) {
            Some(index) => {
                if index > self.window.start_index() {
                    let r = self.get_value_by_index(&(index - 1));
                    proof {
                        assert(self.index_map()[index] == *key);
                    }
                    r
                } else {
                    proof {
                        if self.is_ascending() {
                            assert forall|i: u64| self.start() < i <= self.end() implies #[trigger] self.index_map()[i] != *key by {
                                assert(self.index_map()[index].precedes(self.index_map()[i]));
                                K::lemma_precedes_irreflexive(*key);
                            }
                        }
                    }
                    None
                }
            },
            None => None,
        }
    }

    /// The value whose index is one more than that of `key`.
    pub fn get_next_by_key(&self, key: &K) -> (r: Option<V>)
        requires
            self.wf(),
            self.start() != 0,
            self.values_complete(),
        ensures
            r matches Some(v) ==> exists|i: u64| #![trigger self.index_map()[i]]
                self.start() <= i < self.end() && self.index_map()[i] == *key
                    && cloned(self.value_map()[self.index_map()[(i + 1) as u64]], v),
            self.is_ascending() ==> (r.is_some() <==> exists|i: u64| #![trigger self.index_map()[i]]
                self.start() <= i < self.end() && self.index_map()[i] == *key),
    {
        proof {
            self.lemma_shape();
        }
        match self.get_index_of_key(key) {
            Some(index) => {
                if index < self.window.end_index() {
                    let r = self.get_value_by_index(&(index + 1));
                    proof {
                        assert(self.index_map()[index] == *key);
                    }
                    r
                } else {
                    proof {
                        if self.is_ascending() {
                            assert forall|i: u64| self.start() <= i < self.end() implies #[trigger] self.index_map()[i] != *key by {
                                assert(self.index_map()[i].precedes(self.index_map()[index]));
                                K::lemma_precedes_irreflexive(*key);
                            }
                        }
                    }
                    None
                }
            },
            None => None,
        }
    }
}

} // verus!

verus! {

/// A pair pushed into a queue that keeps at least one pair, and that did not hold
/// its key yet, can be read back by its key: it is the pair at the end.
pub proof fn law_push_back_then_get<K: AscendingKey, V: Clone>(
    q0: IndexedLookupQueue<K, V>,
    q1: IndexedLookupQueue<K, V>,
    element: (K, V),
)
    requires
        q0.wf(),
        q0.pushed(q1, element),
        q0.max() >= 1,
        forall|i: u64| #[trigger] q0.index_map().contains_key(i) ==> q0.index_map()[i] != element.0,
    ensures
        q1.value_map().contains_key(element.0),
        q1.value_map()[element.0] == element.1,
        q1.index_map().contains_key(q1.end()),
        q1.index_map()[q1.end()] == element.0,
{
    q0.lemma_shape();
    let s1: u64 = if q0.start() == 0 && q0.end() == 0 { 1 } else { q0.start() };
    let e1 = (q0.end() + 1) as u64;
    let im1 = q0.index_map().insert(e1, element.0);
    if e1 + 1 - s1 > q0.max() {
        assert(s1 < e1);
        assert(q0.index_map().contains_key(s1));
        assert(im1[s1] == q0.index_map()[s1]);
    }
}

/// Pushing keeps a queue within its maximum length.
pub proof fn law_push_back_bounded<K: AscendingKey, V: Clone>(
    q0: IndexedLookupQueue<K, V>,
    q1: IndexedLookupQueue<K, V>,
    element: (K, V),
)
    requires
        q0.wf(),
        q0.pushed(q1, element),
        q0.start() == 0 || span(q0.start(), q0.end()) <= q0.max(),
    ensures
        span(q1.start(), q1.end()) <= q1.max(),
{
    q0.lemma_shape();
}

/// The oldest pair leaves first: popping right after a push into a queue that was
/// neither empty nor full returns the pair that was at its front, when the pushed
/// key was not in the queue.
pub proof fn law_pop_front_after_push_back<K: AscendingKey, V: Clone>(
    q0: IndexedLookupQueue<K, V>,
    q1: IndexedLookupQueue<K, V>,
    element: (K, V),
    q2: IndexedLookupQueue<K, V>,
    r: Option<(Option<K>, Option<V>)>,
)
    requires
        q0.wf(),
        q0.index_map().contains_key(q0.start()),
        span(q0.start(), q0.end()) < q0.max(),
        forall|i: u64| #[trigger] q0.index_map().contains_key(i) ==> q0.index_map()[i] != element.0,
        q0.pushed(q1, element),
        q1.popped(q2, r),
    ensures
        r == Some((Some(q0.index_map()[q0.start()]), map_get(q0.value_map(), q0.index_map()[q0.start()]))),
{
    q0.lemma_shape();
    let k = q0.index_map()[q0.start()];
    assert(q1.start() == q0.start());
    assert(q1.index_map()[q1.start()] == k);
    assert(k != element.0);
    assert(map_get(q1.value_map(), k) == map_get(q0.value_map(), k));
}

/// After `set_max_length` a queue that held a pair holds at most that many indices.
pub proof fn law_set_max_length_bounded<K: AscendingKey, V: Clone>(
    q0: IndexedLookupQueue<K, V>,
    q1: IndexedLookupQueue<K, V>,
    max_length: u64,
)
    requires
        q0.wf(),
        q0.start() >= 1,
        q0.trimmed(q1, max_length),
    ensures
        span(q1.start(), q1.end()) <= max_length,
{
    q0.lemma_shape();
}

} // verus!
