use vstd::prelude::*;
use crate::index_window::{ascending_between, lemma_run_above, lemma_run_below, map_get, reported_len, span};
use crate::ordering::AscendingKey;

verus! {

/// `r` is a reference to the key that `o` holds, or both are empty.
pub open spec fn same_key_ref<K>(r: Option<&K>, o: Option<K>) -> bool {
    match r {
        Some(k) => o == Some(*k),
        None => o is None,
    }
}

/// Every index of `start..=end` except `0` holds a key.
pub open spec fn window_full<K>(keys: Map<u64, K>, start: u64, end: u64) -> bool {
    forall|i: u64| start <= i <= end && i != 0 ==> #[trigger] keys.contains_key(i)
}

/// `key` is stored at some index of `start..=end`.
pub open spec fn stored_between<K>(keys: Map<u64, K>, start: u64, end: u64, key: K) -> bool {
    exists|i: u64| start <= i <= end && #[trigger] keys.contains_key(i) && keys[i] == key
}

/// `k` is the largest stored key that precedes `key`.
pub open spec fn greatest_before<K: AscendingKey>(keys: Map<u64, K>, start: u64, end: u64, key: K, k: K) -> bool {
    &&& stored_between(keys, start, end, k)
    &&& k.precedes(key)
    &&& forall|j: u64| #![trigger keys[j]] start <= j <= end && keys.contains_key(j) && keys[j].precedes(key)
        ==> keys[j] == k || keys[j].precedes(k)
}

/// `k` is the smallest stored key that `key` precedes.
pub open spec fn least_after<K: AscendingKey>(keys: Map<u64, K>, start: u64, end: u64, key: K, k: K) -> bool {
    &&& stored_between(keys, start, end, k)
    &&& key.precedes(k)
    &&& forall|j: u64| #![trigger keys[j]] start <= j <= end && keys.contains_key(j) && key.precedes(keys[j])
        ==> keys[j] == k || k.precedes(keys[j])
}

/// No stored key precedes `key`.
pub open spec fn none_before<K: AscendingKey>(keys: Map<u64, K>, start: u64, end: u64, key: K) -> bool {
    forall|j: u64| #![trigger keys[j]] start <= j <= end && keys.contains_key(j) ==> !keys[j].precedes(key)
}

/// `key` precedes no stored key.
pub open spec fn none_after<K: AscendingKey>(keys: Map<u64, K>, start: u64, end: u64, key: K) -> bool {
    forall|j: u64| #![trigger keys[j]] start <= j <= end && keys.contains_key(j) ==> !key.precedes(keys[j])
}

pub proof fn lemma_precedes_asymmetric<K: AscendingKey>(a: K, b: K)
    requires
        a.precedes(b),
    ensures
        !b.precedes(a),
        a != b,
{
    K::lemma_precedes_irreflexive(a);
    if b.precedes(a) {
        K::lemma_precedes_transitive(a, b, a);
    }
}

/// View interfaces for an indexed ascending queue, whose keys sit at the indices
/// `start_index..=end_index`.
///
/// The lookups by key assume that the keys are in strictly ascending order; they
/// are exact for a queue whose keys ascend and whose indices are all in use.
pub trait IndexedAscendingQueueViewer<K: AscendingKey> {
    spec fn viewed_start(&self) -> u64;

    spec fn viewed_end(&self) -> u64;

    spec fn viewed_max_length(&self) -> u64;

    /// The map from index to key.
    spec fn viewed_keys(&self) -> Map<u64, K>;

    spec fn viewer_wf(&self) -> bool;

    proof fn lemma_viewer_shape(&self)
        requires
            self.viewer_wf(),
        ensures
            self.viewed_end() < u64::MAX,
            !self.viewed_keys().contains_key(0u64),
            self.viewed_start() == 0 ==> self.viewed_end() == 0,
            self.viewed_start() <= self.viewed_end() + 1,
    ;

    fn start_index(&self) -> (r: u64)
        requires
            self.viewer_wf(),
        ensures
            r == self.viewed_start(),
    ;

    fn end_index(&self) -> (r: u64)
        requires
            self.viewer_wf(),
        ensures
            r == self.viewed_end(),
    ;

    fn max_length(&self) -> (r: u64)
        requires
            self.viewer_wf(),
        ensures
            r == self.viewed_max_length(),
    ;

    fn get_key_by_index(&self, index: &u64) -> (r: Option<&K>)
        requires
            self.viewer_wf(),
        ensures
            same_key_ref(r, map_get(self.viewed_keys(), *index)),
    ;

    /// The key at `start_index`.
    fn first_key(&self) -> (r: Option<&K>)
        requires
            self.viewer_wf(),
        ensures
            same_key_ref(r, map_get(self.viewed_keys(), self.viewed_start())),
    {
        self.get_key_by_index(&self.start_index())
    }

    /// The key at `end_index`.
    fn last_key(&self) -> (r: Option<&K>)
        requires
            self.viewer_wf(),
        ensures
            same_key_ref(r, map_get(self.viewed_keys(), self.viewed_end())),
    {
        self.get_key_by_index(&self.end_index())
    }

    /// Whether the binary search finds `key`.
    fn contains_key(&self, key: &K) -> (r: bool)
        requires
            self.viewer_wf(),
        ensures
            r ==> stored_between(self.viewed_keys(), self.viewed_start(), self.viewed_end(), *key),
            ascending_between(self.viewed_keys(), self.viewed_start(), self.viewed_end())
                && window_full(self.viewed_keys(), self.viewed_start(), self.viewed_end())
                ==> (r <==> stored_between(self.viewed_keys(), self.viewed_start(), self.viewed_end(), *key)),
    {
        self.get_index_of_key(key).is_some()
    }

    /// Current length of the queue.
    fn len(&self) -> (r: u64)
        requires
            self.viewer_wf(),
        ensures
            r == reported_len(self.viewed_keys(), self.viewed_start(), self.viewed_end(), self.viewed_max_length()),
    {
        proof {
            self.lemma_viewer_shape();
        }
        let start = self.start_index();
        let end = self.end_index();
        if end < start {
            0
        } else if end == start {
            if self.get_key_by_index(&start).is_some() {
                1
            } else {
                0
            }
        } else if end - start + 1 > self.max_length() {
            self.max_length()
        } else {
            end - start + 1
        }
    }

    /// The key at each index of `start_index..=end_index`.
    fn keys(&self) -> (r: Vec<Option<&K>>)
        requires
            self.viewer_wf(),
        ensures
            r@.len() == span(self.viewed_start(), self.viewed_end()),
            forall|j: int| 0 <= j < r@.len() ==> same_key_ref(#[trigger] r@[j],
                map_get(self.viewed_keys(), (self.viewed_start() + j) as u64)),
    {
        proof {
            self.lemma_viewer_shape();
        }
        let mut keys: Vec<Option<&K>> = Vec::new();
        let start = self.start_index();
        let stop: u64 = self.end_index() + 1;
        let mut index: u64 = start;
        while index < stop
            invariant
                self.viewer_wf(),
                start == self.viewed_start(),
                stop == self.viewed_end() + 1,
                start <= index,
                index <= stop || index == start,
                keys@.len() == (if index >= start { index - start } else { 0 }),
                forall|j: int| 0 <= j < keys@.len() ==> same_key_ref(#[trigger] keys@[j],
                    map_get(self.viewed_keys(), (start + j) as u64)),
            decreases stop - index,
        {
            keys.push(self.get_key_by_index(&index));
            index = index + 1;
        }
        keys
    }

    fn is_empty(&self) -> (r: bool)
        requires
            self.viewer_wf(),
        ensures
            r == (reported_len(self.viewed_keys(), self.viewed_start(), self.viewed_end(), self.viewed_max_length()) == 0),
    {
        self.len() == 0
    }

    /// Binary search for the index of `key`; gives up at an index without a key.
    fn get_index_of_key(&self, key: &K) -> (r: Option<u64>)
        requires
            self.viewer_wf(),
        ensures
            r matches Some(i) ==> self.viewed_start() <= i <= self.viewed_end()
                && self.viewed_keys().contains_key(i) && self.viewed_keys()[i] == *key,
            ascending_between(self.viewed_keys(), self.viewed_start(), self.viewed_end())
                && window_full(self.viewed_keys(), self.viewed_start(), self.viewed_end())
                ==> (r.is_none() <==> !stored_between(self.viewed_keys(), self.viewed_start(), self.viewed_end(), *key)),
    {
        proof {
            self.lemma_viewer_shape();
        }
        let ghost keys = self.viewed_keys();
        let ghost lo0 = self.viewed_start();
        let ghost hi0 = self.viewed_end();
        let ghost exact = ascending_between(keys, lo0, hi0) && window_full(keys, lo0, hi0);
        let mut start = self.start_index();
        let mut end = self.end_index();
        while start <= end
            invariant
                self.viewer_wf(),
                keys == self.viewed_keys(),
                lo0 == self.viewed_start(),
                hi0 == self.viewed_end(),
                exact == (ascending_between(keys, lo0, hi0) && window_full(keys, lo0, hi0)),
                hi0 < u64::MAX,
                !keys.contains_key(0u64),
                lo0 == 0 ==> hi0 == 0,
                lo0 <= start,
                end <= hi0,
                start <= end + 1,
                exact ==> forall|i: u64| #![trigger keys[i]]
                    (lo0 <= i < start || end < i <= hi0) && keys.contains_key(i) ==> keys[i] != *key,
            decreases end + 1 - start,
        {
            let mid = start + (end - start) / 2;
            if let Some(mid_key) = self.get_key_by_index(&mid) {
                if mid_key.is_same_key(key) {
                    return Some(mid);
                } else if mid_key.is_before(key) {
                    proof {
                        if exact {
                            lemma_run_below(keys, lo0, hi0, mid, *key);
                        }
                    }
                    start = mid + 1;
                } else {
                    proof {
                        K::lemma_precedes_total(*mid_key, *key);
                        if exact {
                            lemma_run_above(keys, lo0, hi0, mid, *key);
                        }
                    }
                    end = mid - 1;
                }
            } else {
                proof {
                    if exact {
                        assert(mid == 0);
                        assert forall|i: u64| lo0 <= i <= hi0 && #[trigger] keys.contains_key(i) implies keys[i] != *key by {
                            assert(i == 0);
                        }
                    }
                }
                return None;
            }
        }
        None
    }

    /// The largest key that precedes `key`.
    fn get_previous_key_by_key(&self, key: &K) -> (r: Option<&K>)
        requires
            self.viewer_wf(),
        ensures
            r matches Some(k) ==> stored_between(self.viewed_keys(), self.viewed_start(), self.viewed_end(), *k),
            ascending_between(self.viewed_keys(), self.viewed_start(), self.viewed_end())
                && window_full(self.viewed_keys(), self.viewed_start(), self.viewed_end()) ==> {
                &&& r matches Some(k) ==> greatest_before(self.viewed_keys(), self.viewed_start(), self.viewed_end(), *key, *k)
                &&& r is None ==> none_before(self.viewed_keys(), self.viewed_start(), self.viewed_end(), *key)
            },
    {
        proof {
            self.lemma_viewer_shape();
        }
        let ghost keys = self.viewed_keys();
        let ghost lo0 = self.viewed_start();
        let ghost hi0 = self.viewed_end();
        let ghost exact = ascending_between(keys, lo0, hi0) && window_full(keys, lo0, hi0);
        if let Some(index) = self.get_index_of_key(key) {
            if index > self.start_index() {
                let r = self.get_key_by_index(&(index - 1));
                proof {
                    let p = (index - 1) as u64;
                    if let Some(k) = r {
                        assert(keys.contains_key(p) && keys[p] == *k);
                        assert(stored_between(keys, lo0, hi0, *k));
                    }
                    if exact {
                        assert(keys.contains_key(p));
                        assert(keys[p].precedes(keys[index]));
                        assert forall|j: u64| #![trigger keys[j]] lo0 <= j <= hi0 && keys.contains_key(j) && keys[j].precedes(*key)
                            implies keys[j] == keys[p] || keys[j].precedes(keys[p]) by {
                            if j >= index {
                                if j > index {
                                    assert(keys[index].precedes(keys[j]));
                                    lemma_precedes_asymmetric(keys[index], keys[j]);
                                } else {
                                    K::lemma_precedes_irreflexive(*key);
                                }
                            } else if j < p {
                                assert(keys[j].precedes(keys[p]));
                            }
                        }
                    }
                }
                r
            } else {
                proof {
                    if exact {
                        assert forall|j: u64| #![trigger keys[j]] lo0 <= j <= hi0 && keys.contains_key(j)
                            implies !keys[j].precedes(*key) by {
                            if j > index {
                                assert(keys[index].precedes(keys[j]));
                                lemma_precedes_asymmetric(keys[index], keys[j]);
                            } else {
                                K::lemma_precedes_irreflexive(*key);
                            }
                        }
                    }
                }
                None
            }
        } else {
            let mut start = self.start_index();
            let mut end = self.end_index();
            let mut result: Option<&K> = None;
            while start <= end
                invariant
                    self.viewer_wf(),
                    keys == self.viewed_keys(),
                    lo0 == self.viewed_start(),
                    hi0 == self.viewed_end(),
                    exact == (ascending_between(keys, lo0, hi0) && window_full(keys, lo0, hi0)),
                    exact ==> !stored_between(keys, lo0, hi0, *key),
                    hi0 < u64::MAX,
                    !keys.contains_key(0u64),
                    lo0 == 0 ==> hi0 == 0,
                    lo0 <= start,
                    end <= hi0,
                    start <= end + 1,
                    result matches Some(k) ==> stored_between(keys, lo0, hi0, *k),
                    exact ==> forall|i: u64| #![trigger keys[i]] lo0 <= i < start && keys.contains_key(i) ==> keys[i].precedes(*key),
                    exact ==> forall|i: u64| #![trigger keys[i]] end < i <= hi0 && keys.contains_key(i) ==> key.precedes(keys[i]),
                    exact ==> (if start > lo0 { same_key_ref(result, Some(keys[(start - 1) as u64])) } else { result is None }),
                decreases end + 1 - start,
            {
                let mid = start + (end - start) / 2;
                if let Some(mid_key) = self.get_key_by_index(&mid) {
                    if mid_key.is_before(key) {
                        proof {
                            assert(stored_between(keys, lo0, hi0, *mid_key));
                            if exact {
                                lemma_run_below(keys, lo0, hi0, mid, *key);
                            }
                        }
                        result = Some(mid_key);
                        start = mid + 1;
                    } else {
                        proof {
                            K::lemma_precedes_total(*mid_key, *key);
                            if exact {
                                assert(*mid_key != *key);
                                lemma_run_above(keys, lo0, hi0, mid, *key);
                            }
                        }
                        end = mid - 1;
                    }
                } else {
                    proof {
                        if exact {
                            assert(mid == 0);
                            assert forall|j: u64| #![trigger keys[j]] lo0 <= j <= hi0 && keys.contains_key(j)
                                implies !keys[j].precedes(*key) by {
                                assert(j == 0);
                            }
                        }
                    }
                    return None;
                }
            }
            proof {
                if exact {
                    if start > lo0 {
                        let p = (start - 1) as u64;
                        assert(keys.contains_key(p));
                        assert forall|j: u64| #![trigger keys[j]] lo0 <= j <= hi0 && keys.contains_key(j) && keys[j].precedes(*key)
                            implies keys[j] == keys[p] || keys[j].precedes(keys[p]) by {
                            if j > end {
                                lemma_precedes_asymmetric(*key, keys[j]);
                            } else if j < p {
                                assert(keys[j].precedes(keys[p]));
                            }
                        }
                    } else {
                        assert forall|j: u64| #![trigger keys[j]] lo0 <= j <= hi0 && keys.contains_key(j)
                            implies !keys[j].precedes(*key) by {
                            lemma_precedes_asymmetric(*key, keys[j]);
                        }
                    }
                }
            }
            result
        }
    }

    /// The smallest key that `key` precedes.
    fn get_next_key_by_key(&self, key: &K) -> (r: Option<&K>)
        requires
            self.viewer_wf(),
        ensures
            r matches Some(k) ==> stored_between(self.viewed_keys(), self.viewed_start(), self.viewed_end(), *k),
            ascending_between(self.viewed_keys(), self.viewed_start(), self.viewed_end())
                && window_full(self.viewed_keys(), self.viewed_start(), self.viewed_end()) ==> {
                &&& r matches Some(k) ==> least_after(self.viewed_keys(), self.viewed_start(), self.viewed_end(), *key, *k)
                &&& r is None ==> none_after(self.viewed_keys(), self.viewed_start(), self.viewed_end(), *key)
            },
    {
        proof {
            self.lemma_viewer_shape();
        }
        let ghost keys = self.viewed_keys();
        let ghost lo0 = self.viewed_start();
        let ghost hi0 = self.viewed_end();
        let ghost exact = ascending_between(keys, lo0, hi0) && window_full(keys, lo0, hi0);
        if let Some(index) = self.get_index_of_key(key) {
            if index < self.end_index() {
                let r = self.get_key_by_index(&(index + 1));
                proof {
                    let n = (index + 1) as u64;
                    if let Some(k) = r {
                        assert(keys.contains_key(n) && keys[n] == *k);
                        assert(stored_between(keys, lo0, hi0, *k));
                    }
                    if exact {
                        assert(keys.contains_key(n));
                        assert(keys[index].precedes(keys[n]));
                        assert forall|j: u64| #![trigger keys[j]] lo0 <= j <= hi0 && keys.contains_key(j) && key.precedes(keys[j])
                            implies keys[j] == keys[n] || keys[n].precedes(keys[j]) by {
                            if j <= index {
                                if j < index {
                                    assert(keys[j].precedes(keys[index]));
                                    lemma_precedes_asymmetric(keys[j], keys[index]);
                                } else {
                                    K::lemma_precedes_irreflexive(*key);
                                }
                            } else if j > n {
                                assert(keys[n].precedes(keys[j]));
                            }
                        }
                    }
                }
                r
            } else {
                proof {
                    if exact {
                        assert forall|j: u64| #![trigger keys[j]] lo0 <= j <= hi0 && keys.contains_key(j)
                            implies !key.precedes(keys[j]) by {
                            if j < index {
                                assert(keys[j].precedes(keys[index]));
                                lemma_precedes_asymmetric(keys[j], keys[index]);
                            } else {
                                K::lemma_precedes_irreflexive(*key);
                            }
                        }
                    }
                }
                None
            }
        } else {
            let mut start = self.start_index();
            let mut end = self.end_index();
            let mut result: Option<&K> = None;
            while start <= end
                invariant
                    self.viewer_wf(),
                    keys == self.viewed_keys(),
                    lo0 == self.viewed_start(),
                    hi0 == self.viewed_end(),
                    exact == (ascending_between(keys, lo0, hi0) && window_full(keys, lo0, hi0)),
                    exact ==> !stored_between(keys, lo0, hi0, *key),
                    hi0 < u64::MAX,
                    !keys.contains_key(0u64),
                    lo0 == 0 ==> hi0 == 0,
                    lo0 <= start,
                    end <= hi0,
                    start <= end + 1,
                    result matches Some(k) ==> stored_between(keys, lo0, hi0, *k),
                    exact ==> forall|i: u64| #![trigger keys[i]] lo0 <= i < start && keys.contains_key(i) ==> keys[i].precedes(*key),
                    exact ==> forall|i: u64| #![trigger keys[i]] end < i <= hi0 && keys.contains_key(i) ==> key.precedes(keys[i]),
                    exact ==> (if end < hi0 { same_key_ref(result, Some(keys[(end + 1) as u64])) } else { result is None }),
                decreases end + 1 - start,
            {
                let mid = start + (end - start) / 2;
                if let Some(mid_key) = self.get_key_by_index(&mid) {
                    if key.is_before(mid_key) {
                        proof {
                            assert(stored_between(keys, lo0, hi0, *mid_key));
                            if exact {
                                lemma_run_above(keys, lo0, hi0, mid, *key);
                            }
                        }
                        result = Some(mid_key);
                        end = mid - 1;
                    } else {
                        proof {
                            K::lemma_precedes_total(*mid_key, *key);
                            if exact {
                                assert(*mid_key != *key);
                                lemma_run_below(keys, lo0, hi0, mid, *key);
                            }
                        }
                        start = mid + 1;
                    }
                } else {
                    proof {
                        if exact {
                            assert(mid == 0);
                            assert forall|j: u64| #![trigger keys[j]] lo0 <= j <= hi0 && keys.contains_key(j)
                                implies !key.precedes(keys[j]) by {
                                assert(j == 0);
                            }
                        }
                    }
                    return None;
                }
            }
            proof {
                if exact {
                    if end < hi0 {
                        let n = (end + 1) as u64;
                        assert(keys.contains_key(n));
                        assert forall|j: u64| #![trigger keys[j]] lo0 <= j <= hi0 && keys.contains_key(j) && key.precedes(keys[j])
                            implies keys[j] == keys[n] || keys[n].precedes(keys[j]) by {
                            if j < start {
                                lemma_precedes_asymmetric(keys[j], *key);
                            } else if j > n {
                                assert(keys[n].precedes(keys[j]));
                            }
                        }
                    } else {
                        assert forall|j: u64| #![trigger keys[j]] lo0 <= j <= hi0 && keys.contains_key(j)
                            implies !key.precedes(keys[j]) by {
                            lemma_precedes_asymmetric(keys[j], *key);
                        }
                    }
                }
            }
            result
        }
    }
}

} // verus!

verus! {

/// The largest stored key that precedes `key`, if there is one.
pub open spec fn previous_key<K: AscendingKey>(keys: Map<u64, K>, start: u64, end: u64, key: K) -> Option<K> {
    if exists|k: K| greatest_before(keys, start, end, key, k) {
        Some(choose|k: K| greatest_before(keys, start, end, key, k))
    } else {
        None
    }
}

/// The smallest stored key that `key` precedes, if there is one.
pub open spec fn next_key<K: AscendingKey>(keys: Map<u64, K>, start: u64, end: u64, key: K) -> Option<K> {
    if exists|k: K| least_after(keys, start, end, key, k) {
        Some(choose|k: K| least_after(keys, start, end, key, k))
    } else {
        None
    }
}

pub proof fn lemma_previous_key<K: AscendingKey>(keys: Map<u64, K>, start: u64, end: u64, key: K, r: Option<K>)
    requires
        r matches Some(k) ==> greatest_before(keys, start, end, key, k),
        r is None ==> none_before(keys, start, end, key),
    ensures
        previous_key(keys, start, end, key) == r,
{
    match r {
        Some(k) => {
            let c = choose|c: K| greatest_before(keys, start, end, key, c);
            assert(greatest_before(keys, start, end, key, c));
            let i = choose|i: u64| start <= i <= end && #[trigger] keys.contains_key(i) && keys[i] == c;
            let j = choose|j: u64| start <= j <= end && #[trigger] keys.contains_key(j) && keys[j] == k;
            assert(keys[i] == k || keys[i].precedes(k));
            assert(keys[j] == c || keys[j].precedes(c));
            if c != k {
                lemma_precedes_asymmetric(c, k);
            }
        },
        None => {
            if exists|k: K| greatest_before(keys, start, end, key, k) {
                let c = choose|c: K| greatest_before(keys, start, end, key, c);
                let i = choose|i: u64| start <= i <= end && #[trigger] keys.contains_key(i) && keys[i] == c;
                assert(!keys[i].precedes(key));
            }
        },
    }
}

pub proof fn lemma_next_key<K: AscendingKey>(keys: Map<u64, K>, start: u64, end: u64, key: K, r: Option<K>)
    requires
        r matches Some(k) ==> least_after(keys, start, end, key, k),
        r is None ==> none_after(keys, start, end, key),
    ensures
        next_key(keys, start, end, key) == r,
{
    match r {
        Some(k) => {
            let c = choose|c: K| least_after(keys, start, end, key, c);
            assert(least_after(keys, start, end, key, c));
            let i = choose|i: u64| start <= i <= end && #[trigger] keys.contains_key(i) && keys[i] == c;
            let j = choose|j: u64| start <= j <= end && #[trigger] keys.contains_key(j) && keys[j] == k;
            assert(keys[i] == k || k.precedes(keys[i]));
            assert(keys[j] == c || c.precedes(keys[j]));
            if c != k {
                lemma_precedes_asymmetric(c, k);
            }
        },
        None => {
            if exists|k: K| least_after(keys, start, end, key, k) {
                let c = choose|c: K| least_after(keys, start, end, key, c);
                let i = choose|i: u64| start <= i <= end && #[trigger] keys.contains_key(i) && keys[i] == c;
                assert(!key.precedes(keys[i]));
            }
        },
    }
}

} // verus!
