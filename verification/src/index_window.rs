use vstd::prelude::*;
use crate::ordering::AscendingKey;

verus! {

/// `Some(m[k])` when `m` holds `k`, else `None`.
pub open spec fn map_get<A, B>(m: Map<A, B>, k: A) -> Option<B> {
    if m.contains_key(k) {
        Some(m[k])
    } else {
        None
    }
}

/// The number of indices in `start..=end`, counted as zero when the range is empty.
pub open spec fn span(start: u64, end: u64) -> nat {
    if end + 1 >= start {
        (end + 1 - start) as nat
    } else {
        0
    }
}

/// The keys of `index_map` at `start..=end` are strictly ascending.
pub open spec fn ascending_between<K: AscendingKey>(index_map: Map<u64, K>, start: u64, end: u64) -> bool {
    forall|i: u64, j: u64|
        #![trigger index_map[i], index_map[j]]
        start <= i < j <= end ==> index_map[i].precedes(index_map[j])
}

/// The length that the queues report: zero for an empty range, one for a
/// single stored index, the range's length capped at `max_length` otherwise.
pub open spec fn reported_len<K>(index_map: Map<u64, K>, start: u64, end: u64, max_length: u64) -> u64 {
    if end < start {
        0
    } else if end == start {
        if index_map.contains_key(start) { 1 } else { 0 }
    } else if end - start + 1 > max_length {
        max_length
    } else {
        (end - start + 1) as u64
    }
}

/// The run of indices `start..=end` of a queue, and the key stored at each.
///
/// Index `0` is never used: a queue that has never held a key has `start == end == 0`;
/// from the first push on, `start >= 1` and the keys sit at `start..=end`.
pub struct IndexWindow<K> {
    start: u64,
    end: u64,
    max_length: u64,
    keys: Vec<K>,
}

impl<K: AscendingKey> IndexWindow<K> {
    pub closed spec fn start(&self) -> u64 {
        self.start
    }

    pub closed spec fn end(&self) -> u64 {
        self.end
    }

    pub closed spec fn max_length(&self) -> u64 {
        self.max_length
    }

    /// The keys at `start..=end`, in index order.
    pub closed spec fn window(&self) -> Seq<K> {
        self.keys@
    }

    pub closed spec fn wf(&self) -> bool {
        &&& self.end < u64::MAX
        &&& ((self.start == 0 && self.end == 0 && self.keys@.len() == 0) || (1 <= self.start
            && self.start <= self.end + 1 && self.keys@.len() == self.end + 1 - self.start))
    }

    /// The map from index to key.
    pub open spec fn index_map(&self) -> Map<u64, K> {
        Map::new(
            |i: u64| 1 <= self.start() <= i <= self.end(),
            |i: u64| self.window()[i - self.start()],
        )
    }

    pub proof fn lemma_window(&self)
        requires
            self.wf(),
        ensures
            self.start() >= 1 ==> self.window().len() == span(self.start(), self.end()),
            self.start() == 0 ==> self.end() == 0 && self.window().len() == 0,
            self.start() <= self.end() + 1,
            self.end() < u64::MAX,
            forall|i: u64| #[trigger]
                self.index_map().contains_key(i) <==> (1 <= self.start() <= i <= self.end()),
    {
    }

    pub fn new(max_length: u64) -> (w: Self)
        ensures
            w.wf(),
            w.start() == 0,
            w.end() == 0,
            w.max_length() == max_length,
            w.window() == Seq::<K>::empty(),
            w.index_map() == Map::<u64, K>::empty(),
    {
        let w = IndexWindow { start: 0, end: 0, max_length, keys: Vec::new() };
        assert(w.index_map() =~= Map::<u64, K>::empty());
        w
    }

    pub fn start_index(&self) -> (r: u64)
        ensures
            r == self.start(),
    {
        self.start
    }

    pub fn end_index(&self) -> (r: u64)
        ensures
            r == self.end(),
    {
        self.end
    }

    pub fn get_max_length(&self) -> (r: u64)
        ensures
            r == self.max_length(),
    {
        self.max_length
    }

    pub fn set_max(&mut self, max_length: u64)
        requires
            old(self).wf(),
        ensures
            final(self).wf(),
            final(self).max_length() == max_length,
            final(self).start() == old(self).start(),
            final(self).end() == old(self).end(),
            final(self).window() == old(self).window(),
            final(self).index_map() == old(self).index_map(),
    {
        self.max_length = max_length;
    }

    /// The key at `index`, if the window holds one there.
    pub fn key_at(&self, index: u64) -> (r: Option<&K>)
        requires
            self.wf(),
        ensures
            r.is_some() == self.index_map().contains_key(index),
            r matches Some(k) ==> *k == self.index_map()[index],
    {
        if 1 <= self.start && self.start <= index && index <= self.end {
            let n = self.keys.len();
            assert((index - self.start) < n);
            Some(&self.keys[(index - self.start) as usize])
        } else {
            None
        }
    }

    /// Takes the key at `start` away, when there is one.
    pub fn pop_front(&mut self) -> (r: Option<K>)
        requires
            old(self).wf(),
        ensures
            final(self).wf(),
            final(self).max_length() == old(self).max_length(),
            final(self).end() == old(self).end(),
            old(self).index_map().contains_key(old(self).start()) ==> {
                &&& r == Some(old(self).index_map()[old(self).start()])
                &&& final(self).start() == old(self).start() + 1
                &&& final(self).index_map() == old(self).index_map().remove(old(self).start())
                &&& final(self).window() == old(self).window().drop_first()
            },
            !old(self).index_map().contains_key(old(self).start()) ==> {
                &&& r.is_none()
                &&& final(self).start() == old(self).start()
                &&& final(self).index_map() == old(self).index_map()
                &&& final(self).window() == old(self).window()
            },
    {
        if 1 <= self.start && self.start <= self.end {
            let k = self.keys.remove(0);
            self.start = self.start + 1;
            proof {
                assert(self.keys@ =~= old(self).keys@.drop_first());
                assert(self.index_map() =~= old(self).index_map().remove(old(self).start()));
            }
            Some(k)
        } else {
            None
        }
    }

    /// Puts `k` at index `end + 1`; the first key ever stored goes to index `1`.
    pub fn append(&mut self, k: K)
        requires
            old(self).wf(),
            old(self).end() + 1 < u64::MAX,
        ensures
            final(self).wf(),
            final(self).max_length() == old(self).max_length(),
            final(self).end() == old(self).end() + 1,
            final(self).start() == (if old(self).start() == 0 && old(self).end() == 0 {
                1
            } else {
                old(self).start()
            }),
            final(self).start() <= final(self).end(),
            final(self).window() == old(self).window().push(k),
            final(self).index_map() == old(self).index_map().insert((old(self).end() + 1) as u64, k),
    {
        self.keys.push(k);
        if self.start == 0 && self.end == 0 {
            self.start = 1;
        }
        self.end = self.end + 1;
        proof {
            assert(self.index_map() =~= old(self).index_map().insert((old(self).end() + 1) as u64, k));
        }
    }

    /// Drops the keys before `new_start`.
    pub fn advance_start(&mut self, new_start: u64)
        requires
            old(self).wf(),
            1 <= new_start,
            old(self).start() <= new_start || old(self).start() == 0,
            new_start <= old(self).end() + 1,
        ensures
            final(self).wf(),
            final(self).max_length() == old(self).max_length(),
            final(self).end() == old(self).end(),
            final(self).start() == new_start,
            final(self).index_map() == old(self).index_map().remove_keys(Set::new(|i: u64| i < new_start)),
    {
        if self.start == 0 {
            self.start = 1;
        }
        let n = new_start - self.start;
        let mut i: u64 = 0;
        let ghost s1 = self.start;
        let ghost keys1 = self.keys@;
        while i < n
            invariant
                self.end == old(self).end(),
                self.max_length == old(self).max_length(),
                1 <= s1 <= new_start <= self.end + 1,
                self.end < u64::MAX,
                n == new_start - s1,
                i <= n,
                self.start == s1,
                keys1.len() == self.end + 1 - s1,
                self.keys@ == keys1.subrange(i as int, keys1.len() as int),
            decreases n - i,
        {
            self.keys.remove(0);
            i = i + 1;
            assert(self.keys@ =~= keys1.subrange(i as int, keys1.len() as int));
        }
        self.start = new_start;
        proof {
            assert(self.index_map() =~= old(self).index_map().remove_keys(Set::new(|i: u64| i < new_start)));
        }
    }

    /// Forgets every key: the window is back to the state of a new queue.
    pub fn reset(&mut self)
        requires
            old(self).wf(),
        ensures
            final(self).wf(),
            final(self).max_length() == old(self).max_length(),
            final(self).start() == 0,
            final(self).end() == 0,
            final(self).window() == Seq::<K>::empty(),
            final(self).index_map() == Map::<u64, K>::empty(),
    {
        self.keys = Vec::new();
        self.start = 0;
        self.end = 0;
        assert(self.index_map() =~= Map::<u64, K>::empty());
    }

    /// The length that the queue reports.
    pub fn reported_len(&self) -> (r: u64)
        requires
            self.wf(),
        ensures
            r == reported_len(self.index_map(), self.start(), self.end(), self.max_length()),
    {
        if self.end < self.start {
            0
        } else if self.end == self.start {
            if self.key_at(self.start).is_some() {
                1
            } else {
                0
            }
        } else if self.end - self.start + 1 > self.max_length {
            self.max_length
        } else {
            self.end - self.start + 1
        }
    }

    /// `end - start + 1`, read as zero when the range is empty.
    pub fn span(&self) -> (r: u64)
        requires
            self.wf(),
        ensures
            r == span(self.start(), self.end()),
    {
        self.end + 1 - self.start
    }

    /// The key at each index of `start..=end`, as copies.
    pub fn keys(&self) -> (r: Vec<Option<K>>)
        requires
            self.wf(),
        ensures
            r@ == Seq::new(span(self.start(), self.end()), |j: int| map_get(self.index_map(), (self.start() + j) as u64)),
    {
        let mut r: Vec<Option<K>> = Vec::new();
        let mut index: u64 = self.start;
        let last: u64 = self.end + 1;
        while index < last
            invariant
                self.wf(),
                last == self.end() + 1,
                self.start() <= index <= last,
                r@.len() == index - self.start(),
                forall|j: int| 0 <= j < r@.len() ==> r@[j] == map_get(self.index_map(), (self.start() + j) as u64),
            decreases last - index,
        {
            let k = match self.key_at(index) {
                Some(k) => Some(k.copy_key()),
                None => None,
            };
            r.push(k);
            index = index + 1;
        }
        assert(r@ =~= Seq::new(span(self.start(), self.end()), |j: int| map_get(self.index_map(), (self.start() + j) as u64)));
        r
    }
}

} // verus!

verus! {

/// Dropping indices from the front of an ascending run leaves it ascending.
pub proof fn lemma_ascending_suffix<K: AscendingKey>(m: Map<u64, K>, s: u64, end: u64, cut: Set<u64>, s2: u64)
    requires
        ascending_between(m, s, end),
        s <= s2,
        forall|i: u64| s2 <= i ==> !cut.contains(i),
        forall|i: u64| s <= i <= end ==> #[trigger] m.contains_key(i),
    ensures
        ascending_between(m.remove_keys(cut), s2, end),
{
    let m2 = m.remove_keys(cut);
    assert forall|i: u64, j: u64| #![trigger m2[i], m2[j]] s2 <= i < j <= end implies m2[i].precedes(m2[j]) by {
        assert(m[i].precedes(m[j]));
    }
}

/// Adding a key after every key of an ascending run leaves it ascending.
pub proof fn lemma_ascending_append<K: AscendingKey>(m: Map<u64, K>, s: u64, end: u64, k: K)
    requires
        ascending_between(m, s, end),
        s <= end ==> m[end].precedes(k),
        end < u64::MAX,
        forall|i: u64| s <= i <= end ==> #[trigger] m.contains_key(i),
    ensures
        ascending_between(m.insert((end + 1) as u64, k), s, (end + 1) as u64),
{
    let m2 = m.insert((end + 1) as u64, k);
    assert forall|i: u64, j: u64| #![trigger m2[i], m2[j]] s <= i < j <= end + 1 implies m2[i].precedes(m2[j]) by {
        if j == end + 1 {
            if i < end {
                assert(m[i].precedes(m[end]));
                K::lemma_precedes_transitive(m[i], m[end], k);
            }
        } else {
            assert(m[i].precedes(m[j]));
        }
    }
}

/// In an ascending run, everything up to a key that precedes `key` precedes it too.
pub proof fn lemma_run_below<K: AscendingKey>(m: Map<u64, K>, start: u64, end: u64, mid: u64, key: K)
    requires
        ascending_between(m, start, end),
        start <= mid <= end,
        m[mid].precedes(key),
    ensures
        forall|i: u64| #![trigger m[i]] start <= i <= mid ==> m[i].precedes(key) && m[i] != key,
{
    assert forall|i: u64| #![trigger m[i]] start <= i <= mid implies m[i].precedes(key) && m[i] != key by {
        if i < mid {
            assert(m[i].precedes(m[mid]));
            K::lemma_precedes_transitive(m[i], m[mid], key);
        }
        K::lemma_precedes_irreflexive(key);
    }
}

/// In an ascending run, everything from a key that `key` precedes on is preceded by it too.
pub proof fn lemma_run_above<K: AscendingKey>(m: Map<u64, K>, start: u64, end: u64, mid: u64, key: K)
    requires
        ascending_between(m, start, end),
        start <= mid <= end,
        key.precedes(m[mid]),
    ensures
        forall|i: u64| #![trigger m[i]] mid <= i <= end ==> key.precedes(m[i]) && m[i] != key,
{
    assert forall|i: u64| #![trigger m[i]] mid <= i <= end implies key.precedes(m[i]) && m[i] != key by {
        if mid < i {
            assert(m[mid].precedes(m[i]));
            K::lemma_precedes_transitive(key, m[mid], m[i]);
        }
        K::lemma_precedes_irreflexive(key);
    }
}

} // verus!
