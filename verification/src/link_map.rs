use vstd::prelude::*;
use crate::keyed_entries::KeyedEntries;
use crate::ordering::AscendingKey;

verus! {

/// The neighbours that the link map records for a key.
#[derive(Debug)]
pub struct Link<K> {
    /// The key recorded before it.
    pub pre_k: Option<K>,
    /// The key recorded after it.
    pub next_k: Option<K>,
}

fn copy_opt<K: AscendingKey>(k: &Option<K>) -> (r: Option<K>)
    ensures
        r == *k,
{
    match k {
        Some(k) => Some(k.copy_key()),
        None => None,
    }
}

fn copy_link<K: AscendingKey>(l: &Link<K>) -> (r: Link<K>)
    ensures
        r == *l,
{
    Link { pre_k: copy_opt(&l.pre_k), next_k: copy_opt(&l.next_k) }
}

/// Whether `current` holds a key that `k` precedes.
fn precedes_current<K: AscendingKey>(k: &K, current: &Option<K>) -> (r: bool)
    ensures
        r == (*current matches Some(c) && k.precedes(c)),
{
    match current {
        Some(c) => k.is_before(c),
        None => false,
    }
}

/// The links after `k` goes in as the new head of a map whose head is `head`:
/// the old head records itself as its predecessor, and `k` records the old head
/// as its successor.
pub open spec fn links_with_new_head<K>(links: Map<K, Link<K>>, head: Option<K>, k: K) -> Map<K, Link<K>> {
    match head {
        Some(h) => links.insert(h, Link { pre_k: Some(h), next_k: links[h].next_k }).insert(k, Link { pre_k: None, next_k: Some(h) }),
        None => links.insert(k, Link { pre_k: None, next_k: None }),
    }
}

/// A map of values with links between its keys, kept in two maps and a head and
/// a tail. Keys are inserted by `insert_from_tail`, which searches from the tail
/// for the first key that the new key does not precede; nothing sets the tail,
/// so the search finds none and every key goes in as the new head.
pub struct KeySortLinkMap<K, V> {
    value_map: KeyedEntries<K, V>,
    link_map: KeyedEntries<K, Link<K>>,
    head: Option<K>,
    tail: Option<K>,
}

impl<K: AscendingKey, V: Clone> KeySortLinkMap<K, V> {
    pub closed spec fn wf(&self) -> bool {
        &&& self.value_map.wf()
        &&& self.link_map.wf()
        &&& self.tail is None
        &&& (self.head matches Some(h) ==> self.link_map@.contains_key(h))
    }

    /// The map from key to value.
    pub closed spec fn entries(&self) -> Map<K, V> {
        self.value_map@
    }

    /// The link recorded for each key.
    pub closed spec fn links(&self) -> Map<K, Link<K>> {
        self.link_map@
    }

    /// The head key.
    pub closed spec fn head_key(&self) -> Option<K> {
        self.head
    }

    /// The tail key.
    pub closed spec fn tail_key(&self) -> Option<K> {
        self.tail
    }

    /// An empty map.
    pub fn new() -> (m: Self)
        ensures
            m.wf(),
            m.entries() == Map::<K, V>::empty(),
            m.links() == Map::<K, Link<K>>::empty(),
            m.head_key() is None,
            m.tail_key() is None,
    {
        KeySortLinkMap {
            value_map: KeyedEntries::new(),
            link_map: KeyedEntries::new(),
            head: None,
            tail: None,
        }
    }

    /// The value of `k`.
    pub fn get(&self, k: &K) -> (r: Option<V>)
        requires
            self.wf(),
        ensures
            r.is_some() == self.entries().contains_key(*k),
            r matches Some(v) ==> cloned(self.entries()[*k], v),
    {
        match self.value_map.get(k) {
            Some(v) => Some(v.clone()),
            None => None,
        }
    }

    /// The value of the key that the link of `k` records before it.
    pub fn get_pre(&self, k: &K) -> (r: Option<V>)
        requires
            self.wf(),
        ensures
            r.is_some() == (self.links().contains_key(*k) && (self.links()[*k].pre_k matches Some(p)
                && self.entries().contains_key(p))),
            r matches Some(v) ==> cloned(self.entries()[self.links()[*k].pre_k.unwrap()], v),
    {
        match self.link_map.get(k) {
            Some(link) => match &link.pre_k {
                Some(pre_k) => self.get(pre_k),
                None => None,
            },
            None => None,
        }
    }

    /// The value of the key that the link of `k` records after it.
    pub fn get_next(&self, k: &K) -> (r: Option<V>)
        requires
            self.wf(),
        ensures
            r.is_some() == (self.links().contains_key(*k) && (self.links()[*k].next_k matches Some(n)
                && self.entries().contains_key(n))),
            r matches Some(v) ==> cloned(self.entries()[self.links()[*k].next_k.unwrap()], v),
    {
        match self.link_map.get(k) {
            Some(link) => match &link.next_k {
                Some(next_k) => self.get(next_k),
                None => None,
            },
            None => None,
        }
    }

    /// The head key.
    pub fn head(&self) -> (r: Option<K>)
        ensures
            r == self.head_key(),
    {
        copy_opt(&self.head)
    }

    /// The tail key.
    pub fn tail(&self) -> (r: Option<K>)
        ensures
            r == self.tail_key(),
    {
        copy_opt(&self.tail)
    }

    /// The link recorded for `k`.
    pub fn link_of(&self, k: &K) -> (r: Option<Link<K>>)
        requires
            self.wf(),
        ensures
            r.is_some() == self.links().contains_key(*k),
            r matches Some(l) ==> l == self.links()[*k],
    {
        match self.link_map.get(k) {
            Some(l) => Some(copy_link(l)),
            None => None,
        }
    }

    /// Walks from the tail towards the head and returns the first key that `k`
    /// does not precede. The tail is never set, so the walk starts and ends at no key.
    fn find_first_lt_key_from_tail(&self, k: &K) -> (r: Option<K>)
        requires
            self.wf(),
        ensures
            r is None,
    {
        let mut current = copy_opt(&self.tail);
        while precedes_current(k, &current)
            invariant
                current is None,
            decreases 0nat,
        {
            current = match &current {
                Some(c) => match self.link_map.get(c) {
                    Some(link) => copy_opt(&link.pre_k),
                    None => None,
                },
                None => None,
            };
        }
        current
    }

    /// Makes `k` the head: the old head records itself as its predecessor and
    /// `k` records the old head as its successor.
    fn insert_k_as_head(&mut self, k: &K)
        requires
            old(self).wf(),
        ensures
            final(self).wf(),
            final(self).entries() == old(self).entries(),
            final(self).links() == links_with_new_head(old(self).links(), old(self).head_key(), *k),
            final(self).head_key() == Some(*k),
            final(self).tail_key() == old(self).tail_key(),
    {
        match copy_opt(&self.head) {
            Some(old_head_k) => {
                let next_k = match self.link_map.get(&old_head_k) {
                    Some(link) => copy_opt(&link.next_k),
                    None => None,
                };
                self.link_map.insert(old_head_k.copy_key(), Link { pre_k: Some(old_head_k.copy_key()), next_k });
                self.link_map.insert(k.copy_key(), Link { pre_k: None, next_k: Some(old_head_k) });
            },
            None => {
                self.link_map.insert(k.copy_key(), Link { pre_k: None, next_k: None });
            },
        }
        self.head = Some(k.copy_key());
    }

    /// Sets the value of `k` and links the key in after the first key, searching
    /// from the tail, that it does not precede; with no such key, it becomes the
    /// head. As the tail stays unset, every key becomes the head.
    pub fn insert_from_tail(&mut self, k: &K, v: &V)
        requires
            old(self).wf(),
        ensures
            final(self).wf(),
            final(self).entries().dom() == old(self).entries().dom().insert(*k),
            forall|j: K| j != *k && #[trigger] old(self).entries().contains_key(j) ==> final(self).entries()[j] == old(self).entries()[j],
            cloned(*v, final(self).entries()[*k]),
            final(self).links() == links_with_new_head(old(self).links(), old(self).head_key(), *k),
            final(self).head_key() == Some(*k),
            final(self).tail_key() == old(self).tail_key(),
    {
        let value = v.clone();
        self.value_map.insert(k.copy_key(), value);
        let found = self.find_first_lt_key_from_tail(k);
        match found {
            Some(_) => {},
            None => self.insert_k_as_head(k),
        }
    }
}

/// Every key that `insert_from_tail` inserts becomes the head, linked to the old
/// head, and the tail stays unset: after inserting `a` and then `b` into a map
/// with no head, `b` is the head, `b` links forward to `a`, and `a` records
/// itself as its predecessor.
pub proof fn law_inserts_stack_at_head<K>(a: K, b: K)
    requires
        a != b,
    ensures
        ({
            let l1 = links_with_new_head(Map::<K, Link<K>>::empty(), None, a);
            let l2 = links_with_new_head(l1, Some(a), b);
            &&& l2[b] == Link { pre_k: None, next_k: Some(a) }
            &&& l2[a] == Link { pre_k: Some(a), next_k: None::<K> }
        }),
{
}

} // verus!
