use vstd::prelude::*;
use crate::keyed_entries::{below, below_keys, is_least};
use crate::types::ProcessingResult;
use crate::ordering::{AscendingKey, NearHeight};
use crate::state_book::{entries_in, law_recorded_keeping_bounded, recorded_keeping, Book};
use crate::text::same_text;
use crate::view_map::{KeyView, ViewMap};
use crate::ascending_queues::{may_follow, IndexedAscendingLookupQueue};
use crate::index_window::{map_get, span};
use crate::packet_events::{gather_ibc_events_with_height, matching_events, IbcEventRecord, QueryHeight, QueryPacketEventDataRequest};
use crate::queue_viewer::{stored_between, IndexedAscendingQueueViewer};
use crate::types::Qualified;

verus! {

/// How many consensus states, update times and update heights are kept per client.
pub const MAX_STATE_HISTORY_SIZE: usize = 50;

/// A port id with a channel id.
pub struct PortChannel {
    pub port_id: String,
    pub channel_id: String,
}

impl KeyView for PortChannel {
    type V = (Seq<char>, Seq<char>);

    open spec fn key_view(&self) -> (Seq<char>, Seq<char>) {
        (self.port_id@, self.channel_id@)
    }

    fn same_key_as(&self, other: &Self) -> (r: bool) {
        same_text(self.port_id.as_str(), other.port_id.as_str()) && same_text(
            self.channel_id.as_str(),
            other.channel_id.as_str(),
        )
    }

    fn duplicate(&self) -> (r: Self) {
        PortChannel { port_id: self.port_id.clone(), channel_id: self.channel_id.clone() }
    }
}

/// The heights of the history, oldest first.
pub open spec fn history_heights(q: IndexedAscendingLookupQueue<NearHeight, Vec<IbcEventRecord>>) -> Seq<NearHeight> {
    if q.start() == 0 {
        Seq::<NearHeight>::empty()
    } else {
        Seq::new(span(q.start(), q.end()), |j: int| q.index_map()[(q.start() + j) as u64])
    }
}

/// The events of the history at `k`, none when it has none.
pub open spec fn events_at(vm: Map<NearHeight, Vec<IbcEventRecord>>, k: NearHeight) -> Seq<IbcEventRecord> {
    if vm.contains_key(k) {
        vm[k]@
    } else {
        Seq::<IbcEventRecord>::empty()
    }
}

/// The height that a query names: the last height of the history, or the given one.
pub open spec fn query_target(q: IndexedAscendingLookupQueue<NearHeight, Vec<IbcEventRecord>>, qh: QueryHeight) -> Option<NearHeight> {
    match qh {
        QueryHeight::Latest => map_get(q.index_map(), q.end()),
        QueryHeight::Specific(h) => Some(h),
    }
}

/// How many entries one call of a testnet clearing function removes at most: the
/// budget that the caller's gas allows (at least one), and a hundred at most.
pub open spec fn clear_limit(budget: u64) -> nat {
    if budget == 0 {
        1
    } else if budget > 100 {
        100
    } else {
        budget as nat
    }
}

/// Adds `k` to a set of keys.
fn set_insert<K: KeyView>(set: &mut ViewMap<K, ()>, k: K)
    requires
        old(set).wf(),
    ensures
        final(set).wf(),
        final(set)@.dom() == old(set)@.dom().insert(k.key_view()),
{
    set.insert(k, ());
}

/// Removes `k` from a set of keys.
fn set_remove<K: KeyView>(set: &mut ViewMap<K, ()>, k: &K)
    requires
        old(set).wf(),
    ensures
        final(set).wf(),
        final(set)@.dom() == old(set)@.dom().remove(k.key_view()),
{
    set.remove(k);
}

proof fn lemma_push_to_set<A>(s: Seq<A>, a: A)
    ensures
        s.push(a).to_set() == s.to_set().insert(a),
{
    assert forall|x: A| #[trigger] s.push(a).contains(x) <==> s.contains(x) || x == a by {
        if s.contains(x) {
            let i = choose|i: int| 0 <= i < s.len() && s[i] == x;
            assert(s.push(a)[i] == x);
        }
        if x == a {
            assert(s.push(a)[s.len() as int] == a);
        }
        if s.push(a).contains(x) && x != a {
            let i = choose|i: int| 0 <= i < s.push(a).len() && s.push(a)[i] == x;
            assert(i < s.len());
            assert(s[i] == x);
        }
    }
    assert(s.push(a).to_set() =~= s.to_set().insert(a));
}

proof fn lemma_prefix_to_set<A>(s: Seq<A>, n: int)
    requires
        0 <= n < s.len(),
    ensures
        s.subrange(0, n + 1).to_set() == s.subrange(0, n).to_set().insert(s[n]),
{
    assert(s.subrange(0, n + 1) =~= s.subrange(0, n).push(s[n]));
    lemma_push_to_set(s.subrange(0, n), s[n]);
}

/// The keys listed, or none when nothing was recorded.
fn keys_or_none(keys: Option<Vec<u64>>) -> (r: Vec<u64>)
    ensures
        keys is None ==> r@ == Seq::<u64>::empty(),
        keys matches Some(v) ==> r == v,
{
    match keys {
        Some(v) => v,
        None => Vec::new(),
    }
}

/// The ids of some connections, as texts.
pub open spec fn id_texts(ids: Seq<String>) -> Seq<Seq<char>> {
    ids.map_values(|id: String| id@)
}

/// The bookkeeping of the IBC implementation: the identifiers of what it stores,
/// the counters, the heights of the consensus states of each client, when each
/// client was updated, the connections of each client, and the sequences of the
/// packets of each channel. The encoded states themselves are kept in the
/// contract's storage under their paths.
pub struct NearIbcStore {
    client_id_set: ViewMap<String, ()>,
    client_counter: u64,
    client_processed_times: Book<String, NearHeight, u64>,
    client_processed_heights: Book<String, NearHeight, NearHeight>,
    client_consensus_state_height_sets: Book<String, NearHeight, ()>,
    connection_id_set: ViewMap<String, ()>,
    connection_counter: u64,
    client_connections: ViewMap<String, Vec<String>>,
    port_channel_id_set: ViewMap<PortChannel, ()>,
    channel_counter: u64,
    packet_commitment_sequence_sets: Book<PortChannel, u64, ()>,
    packet_receipt_sequence_sets: Book<PortChannel, u64, ()>,
    packet_acknowledgement_sequence_sets: Book<PortChannel, u64, ()>,
    ibc_events_history: IndexedAscendingLookupQueue<NearHeight, Vec<IbcEventRecord>>,
}

impl NearIbcStore {
    pub closed spec fn wf(&self) -> bool {
        &&& self.client_id_set.wf()
        &&& self.client_processed_times.wf()
        &&& self.client_processed_heights.wf()
        &&& self.client_consensus_state_height_sets.wf()
        &&& self.connection_id_set.wf()
        &&& self.client_connections.wf()
        &&& self.port_channel_id_set.wf()
        &&& self.packet_commitment_sequence_sets.wf()
        &&& self.packet_receipt_sequence_sets.wf()
        &&& self.packet_acknowledgement_sequence_sets.wf()
        &&& self.ibc_events_history.wf()
    }

    /// The history of IBC events: the events that happened at each host height.
    pub closed spec fn history(&self) -> IndexedAscendingLookupQueue<NearHeight, Vec<IbcEventRecord>> {
        self.ibc_events_history
    }

    /// The ids of the stored clients.
    pub closed spec fn client_ids(&self) -> Set<Seq<char>> {
        self.client_id_set@.dom()
    }

    /// The ids of the stored clients, in the order in which they were stored.
    pub closed spec fn client_id_order(&self) -> Seq<Seq<char>> {
        self.client_id_set.key_views()
    }

    /// The ids of the stored connections, in the order in which they were stored.
    pub closed spec fn connection_id_order(&self) -> Seq<Seq<char>> {
        self.connection_id_set.key_views()
    }

    /// The stored channels, in the order in which they were stored.
    pub closed spec fn port_channel_order(&self) -> Seq<(Seq<char>, Seq<char>)> {
        self.port_channel_id_set.key_views()
    }

    /// The ids of the stored connections.
    pub closed spec fn connection_ids(&self) -> Set<Seq<char>> {
        self.connection_id_set@.dom()
    }

    /// The connections of each client, in the order in which they were stored.
    pub closed spec fn client_connection_ids(&self) -> Map<Seq<char>, Seq<Seq<char>>> {
        self.client_connections@.map_values(|ids: Vec<String>| id_texts(ids@))
    }

    /// The port and channel ids of the stored channels.
    pub closed spec fn port_channels(&self) -> Set<(Seq<char>, Seq<char>)> {
        self.port_channel_id_set@.dom()
    }

    pub closed spec fn client_count(&self) -> u64 {
        self.client_counter
    }

    pub closed spec fn connection_count(&self) -> u64 {
        self.connection_counter
    }

    pub closed spec fn channel_count(&self) -> u64 {
        self.channel_counter
    }

    /// The heights of the stored consensus states of each client.
    pub closed spec fn consensus_heights(&self) -> Map<Seq<char>, Map<NearHeight, ()>> {
        self.client_consensus_state_height_sets@
    }

    /// When each client was updated at each height, in nanoseconds.
    pub closed spec fn processed_times(&self) -> Map<Seq<char>, Map<NearHeight, u64>> {
        self.client_processed_times@
    }

    /// The host height at which each client was updated at each height.
    pub closed spec fn processed_heights(&self) -> Map<Seq<char>, Map<NearHeight, NearHeight>> {
        self.client_processed_heights@
    }

    /// The sequences of the stored packet commitments of each channel.
    pub closed spec fn commitment_sequences(&self) -> Map<(Seq<char>, Seq<char>), Map<u64, ()>> {
        self.packet_commitment_sequence_sets@
    }

    /// The sequences of the stored packet receipts of each channel.
    pub closed spec fn receipt_sequences(&self) -> Map<(Seq<char>, Seq<char>), Map<u64, ()>> {
        self.packet_receipt_sequence_sets@
    }

    /// The sequences of the stored packet acknowledgements of each channel.
    pub closed spec fn acknowledgement_sequences(&self) -> Map<(Seq<char>, Seq<char>), Map<u64, ()>> {
        self.packet_acknowledgement_sequence_sets@
    }

    /// The counters are back to zero; the stored ids stay.
    pub open spec fn counters_cleared(self, s: NearIbcStore) -> bool {
        &&& s.client_count() == 0
        &&& s.connection_count() == 0
        &&& s.channel_count() == 0
        &&& s.client_ids() =~= self.client_ids()
        &&& s.connection_ids() =~= self.connection_ids()
        &&& s.port_channels() =~= self.port_channels()
        &&& s.consensus_heights() =~= self.consensus_heights()
    }

    /// `client_id` is forgotten: its update times and heights, its consensus
    /// heights and its id; connections and channels stay.
    pub open spec fn client_forgotten(self, s: NearIbcStore, client_id: Seq<char>) -> bool {
        &&& s.processed_times() =~= self.processed_times().remove(client_id)
        &&& s.processed_heights() =~= self.processed_heights().remove(client_id)
        &&& s.consensus_heights() =~= self.consensus_heights().remove(client_id)
        &&& s.client_ids() =~= self.client_ids().remove(client_id)
        &&& s.connection_ids() =~= self.connection_ids()
        &&& s.port_channels() =~= self.port_channels()
    }

    /// `client_id` is forgotten, its connections are kept.
    pub open spec fn raw_client_removed(self, s: NearIbcStore, client_id: Seq<char>) -> bool {
        &&& self.client_forgotten(s, client_id)
        &&& s.client_connection_ids() =~= self.client_connection_ids()
    }

    /// `client_id` is forgotten with its connections, and `heights` are the
    /// heights of its consensus states, each once.
    pub open spec fn client_removed(self, s: NearIbcStore, client_id: Seq<char>, heights: Seq<NearHeight>) -> bool {
        &&& self.client_forgotten(s, client_id)
        &&& s.client_connection_ids() =~= self.client_connection_ids().remove(client_id)
        &&& heights.no_duplicates()
        &&& heights.to_set() =~= entries_in(self.consensus_heights(), client_id).dom()
    }

    /// `connection_id` is forgotten; clients and channels stay.
    pub open spec fn connection_removed(self, s: NearIbcStore, connection_id: Seq<char>) -> bool {
        &&& s.connection_ids() =~= self.connection_ids().remove(connection_id)
        &&& s.client_ids() =~= self.client_ids()
        &&& s.port_channels() =~= self.port_channels()
    }

    /// The channel `pc` is forgotten, and `seqs` are the sequences of its packet
    /// commitments, receipts and acknowledgements, each once; the rest stays.
    pub open spec fn channel_removed(self, s: NearIbcStore, pc: (Seq<char>, Seq<char>), seqs: (Seq<u64>, Seq<u64>, Seq<u64>)) -> bool {
        &&& s.port_channels() =~= self.port_channels().remove(pc)
        &&& s.client_ids() =~= self.client_ids()
        &&& s.connection_ids() =~= self.connection_ids()
        &&& s.commitment_sequences() =~= self.commitment_sequences()
        &&& s.receipt_sequences() =~= self.receipt_sequences()
        &&& s.acknowledgement_sequences() =~= self.acknowledgement_sequences()
        &&& seqs.0.to_set() =~= entries_in(self.commitment_sequences(), pc).dom()
        &&& seqs.1.to_set() =~= entries_in(self.receipt_sequences(), pc).dom()
        &&& seqs.2.to_set() =~= entries_in(self.acknowledgement_sequences(), pc).dom()
        &&& seqs.0.no_duplicates() && seqs.1.no_duplicates() && seqs.2.no_duplicates()
        &&& s.consensus_heights() =~= self.consensus_heights()
        &&& s.processed_times() =~= self.processed_times()
        &&& s.processed_heights() =~= self.processed_heights()
    }

    /// The consensus heights of `client_id` below `lt_height` (all of them when it
    /// is `None`) are removed least first, at most the budget (at least one) of
    /// them: `removed` are the removed heights, each once, and `NeedMoreGas` tells
    /// that the budget was used up.
    pub open spec fn consensus_states_cleared(
        self,
        s: NearIbcStore,
        client_id: Seq<char>,
        lt_height: Option<&NearHeight>,
        removal_budget: u64,
        r: ProcessingResult,
        removed: Seq<NearHeight>,
    ) -> bool {
        let hs = self.consensus_heights()[client_id].dom();
        let lower = below_keys(hs, lt_height);
        let gone = removed.to_set();
        let budget: nat = if removal_budget == 0 { 1 } else { removal_budget as nat };
        &&& removed.no_duplicates()
        &&& gone.subset_of(lower)
        &&& forall|x: NearHeight, y: NearHeight| #[trigger] gone.contains(x) && #[trigger] lower.contains(y) && !gone.contains(y)
            ==> x.precedes(y)
        &&& r is NeedMoreGas <==> removed.len() == budget
        &&& r is Done ==> gone =~= lower && removed.len() < budget
        &&& !(r is Error)
        &&& s.consensus_heights() =~= self.consensus_heights().insert(client_id,
            self.consensus_heights()[client_id].remove_keys(gone))
        &&& s.client_ids() =~= self.client_ids()
        &&& s.processed_times() =~= self.processed_times()
        &&& s.processed_heights() =~= self.processed_heights()
    }

    /// The history of IBC events is empty, with the same maximum length; the rest
    /// stays.
    pub open spec fn history_cleared(self, s: NearIbcStore) -> bool {
        &&& s.history().start() == 0 && s.history().end() == 0
        &&& s.history().max() =~= self.history().max()
        &&& s.history().index_map() =~= Map::<u64, NearHeight>::empty()
        &&& s.history().value_map() =~= Map::<NearHeight, Vec<IbcEventRecord>>::empty()
        &&& s.client_ids() =~= self.client_ids()
        &&& s.consensus_heights() =~= self.consensus_heights()
    }

    /// The oldest `clear_limit(removal_budget)` connections (all when there are
    /// fewer) are forgotten; `removed` are their ids, oldest first, and
    /// `NeedMoreGas` tells that the limit was reached.
    pub open spec fn connections_cleared(self, s: NearIbcStore, removal_budget: u64, r: ProcessingResult, removed: Seq<String>) -> bool {
        let ids = self.connection_id_order();
        let m = if ids.len() < clear_limit(removal_budget) { ids.len() } else { clear_limit(removal_budget) };
        &&& removed.len() == m
        &&& forall|i: int| 0 <= i < m ==> (#[trigger] removed[i])@ == ids[i]
        &&& s.connection_id_order() =~= ids.subrange(m as int, ids.len() as int)
        &&& s.connection_ids() =~= self.connection_ids().difference(ids.subrange(0, m as int).to_set())
        &&& (r is NeedMoreGas <==> ids.len() >= clear_limit(removal_budget))
        &&& !(r is Error)
        &&& s.client_ids() =~= self.client_ids()
        &&& s.port_channels() =~= self.port_channels()
        &&& s.consensus_heights() =~= self.consensus_heights()
    }

    /// The oldest `clear_limit(removal_budget)` clients (all when there are fewer)
    /// are forgotten; `removed` are their ids, oldest first, each with the heights
    /// of its consensus states, and `NeedMoreGas` tells that the limit was reached.
    pub open spec fn clients_cleared(
        self,
        s: NearIbcStore,
        removal_budget: u64,
        r: ProcessingResult,
        removed: Seq<(String, Vec<NearHeight>)>,
    ) -> bool {
        let ids = self.client_id_order();
        let m = if ids.len() < clear_limit(removal_budget) { ids.len() } else { clear_limit(removal_budget) };
        let gone = ids.subrange(0, m as int).to_set();
        &&& removed.len() == m
        &&& forall|i: int| 0 <= i < m ==> (#[trigger] removed[i]).0@ == ids[i]
            && removed[i].1@.to_set() =~= entries_in(self.consensus_heights(), ids[i]).dom()
        &&& s.client_id_order() =~= ids.subrange(m as int, ids.len() as int)
        &&& s.client_ids() =~= self.client_ids().difference(gone)
        &&& s.consensus_heights() =~= self.consensus_heights().remove_keys(gone)
        &&& s.processed_times() =~= self.processed_times().remove_keys(gone)
        &&& s.processed_heights() =~= self.processed_heights().remove_keys(gone)
        &&& s.client_connection_ids() =~= self.client_connection_ids().remove_keys(gone)
        &&& (r is NeedMoreGas <==> ids.len() >= clear_limit(removal_budget))
        &&& !(r is Error)
        &&& s.connection_ids() =~= self.connection_ids()
        &&& s.port_channels() =~= self.port_channels()
    }

    /// The oldest `clear_limit(removal_budget)` channels (all when there are fewer)
    /// are forgotten; `removed` are them, oldest first, each with the sequences of
    /// its packet commitments, receipts and acknowledgements, and `NeedMoreGas`
    /// tells that the limit was reached.
    pub open spec fn channels_cleared(
        self,
        s: NearIbcStore,
        removal_budget: u64,
        r: ProcessingResult,
        removed: Seq<(PortChannel, (Vec<u64>, Vec<u64>, Vec<u64>))>,
    ) -> bool {
        let pcs = self.port_channel_order();
        let m = if pcs.len() < clear_limit(removal_budget) { pcs.len() } else { clear_limit(removal_budget) };
        &&& removed.len() == m
        &&& forall|i: int| 0 <= i < m ==> {
            &&& (#[trigger] removed[i]).0.key_view() == pcs[i]
            &&& removed[i].1.0@.to_set() =~= entries_in(self.commitment_sequences(), pcs[i]).dom()
            &&& removed[i].1.1@.to_set() =~= entries_in(self.receipt_sequences(), pcs[i]).dom()
            &&& removed[i].1.2@.to_set() =~= entries_in(self.acknowledgement_sequences(), pcs[i]).dom()
        }
        &&& s.port_channel_order() =~= pcs.subrange(m as int, pcs.len() as int)
        &&& s.port_channels() =~= self.port_channels().difference(pcs.subrange(0, m as int).to_set())
        &&& (r is NeedMoreGas <==> pcs.len() >= clear_limit(removal_budget))
        &&& !(r is Error)
        &&& s.client_ids() =~= self.client_ids()
        &&& s.connection_ids() =~= self.connection_ids()
        &&& s.commitment_sequences() =~= self.commitment_sequences()
        &&& s.receipt_sequences() =~= self.receipt_sequences()
        &&& s.acknowledgement_sequences() =~= self.acknowledgement_sequences()
        &&& s.consensus_heights() =~= self.consensus_heights()
    }

    /// An empty store.
    pub fn new() -> (r: Self)
        ensures
            r.wf(),
            r.client_ids() == Set::<Seq<char>>::empty(),
            r.connection_ids() == Set::<Seq<char>>::empty(),
            r.client_connection_ids() == Map::<Seq<char>, Seq<Seq<char>>>::empty(),
            r.port_channels() == Set::<(Seq<char>, Seq<char>)>::empty(),
            r.client_count() == 0,
            r.connection_count() == 0,
            r.channel_count() == 0,
            r.consensus_heights() == Map::<Seq<char>, Map<NearHeight, ()>>::empty(),
            r.processed_times() == Map::<Seq<char>, Map<NearHeight, u64>>::empty(),
            r.processed_heights() == Map::<Seq<char>, Map<NearHeight, NearHeight>>::empty(),
            r.commitment_sequences() == Map::<(Seq<char>, Seq<char>), Map<u64, ()>>::empty(),
            r.receipt_sequences() == Map::<(Seq<char>, Seq<char>), Map<u64, ()>>::empty(),
            r.acknowledgement_sequences() == Map::<(Seq<char>, Seq<char>), Map<u64, ()>>::empty(),
            r.history().start() == 0 && r.history().end() == 0 && r.history().max() == u64::MAX,
            r.history().index_map() == Map::<u64, NearHeight>::empty(),
            r.history().value_map() == Map::<NearHeight, Vec<IbcEventRecord>>::empty(),
    {
        let r = NearIbcStore {
            client_id_set: ViewMap::new(),
            client_counter: 0,
            client_processed_times: Book::new(),
            client_processed_heights: Book::new(),
            client_consensus_state_height_sets: Book::new(),
            connection_id_set: ViewMap::new(),
            connection_counter: 0,
            client_connections: ViewMap::new(),
            port_channel_id_set: ViewMap::new(),
            channel_counter: 0,
            packet_commitment_sequence_sets: Book::new(),
            packet_receipt_sequence_sets: Book::new(),
            packet_acknowledgement_sequence_sets: Book::new(),
            ibc_events_history: IndexedAscendingLookupQueue::new(u64::MAX),
        };
        assert(r.client_ids() =~= Set::<Seq<char>>::empty());
        assert(r.connection_ids() =~= Set::<Seq<char>>::empty());
        assert(r.client_connection_ids() =~= Map::<Seq<char>, Seq<Seq<char>>>::empty());
        assert(r.port_channels() =~= Set::<(Seq<char>, Seq<char>)>::empty());
        r
    }

    /// Records the consensus state of `client_id` at `height`. When the client
    /// then has more than `MAX_STATE_HISTORY_SIZE` of them, the least height is
    /// dropped and returned, so that its state can be removed from storage.
    pub fn store_consensus_state(&mut self, client_id: String, height: NearHeight) -> (r: Option<NearHeight>)
        requires
            old(self).wf(),
        ensures
            final(self).wf(),
            recorded_keeping(old(self).consensus_heights(), final(self).consensus_heights(), client_id@, height, (), MAX_STATE_HISTORY_SIZE, r),
            final(self).client_ids() == old(self).client_ids(),
            final(self).processed_times() == old(self).processed_times(),
            final(self).processed_heights() == old(self).processed_heights(),
    {
        self.client_consensus_state_height_sets.insert_keeping(client_id, height, (), MAX_STATE_HISTORY_SIZE)
    }

    /// Records when `client_id` was updated at `height`. When the client then has
    /// more than `MAX_STATE_HISTORY_SIZE` update times, the one of the least height
    /// is dropped.
    pub fn store_update_time(&mut self, client_id: String, height: NearHeight, timestamp: u64) -> (r: Option<NearHeight>)
        requires
            old(self).wf(),
        ensures
            final(self).wf(),
            recorded_keeping(old(self).processed_times(), final(self).processed_times(), client_id@, height, timestamp, MAX_STATE_HISTORY_SIZE, r),
            final(self).consensus_heights() == old(self).consensus_heights(),
            final(self).processed_heights() == old(self).processed_heights(),
            final(self).client_ids() == old(self).client_ids(),
    {
        self.client_processed_times.insert_keeping(client_id, height, timestamp, MAX_STATE_HISTORY_SIZE)
    }

    /// Records the host height at which `client_id` was updated at `height`. When
    /// the client then has more than `MAX_STATE_HISTORY_SIZE` of them, the one of
    /// the least height is dropped.
    pub fn store_update_height(&mut self, client_id: String, height: NearHeight, host_height: NearHeight) -> (r: Option<NearHeight>)
        requires
            old(self).wf(),
        ensures
            final(self).wf(),
            recorded_keeping(old(self).processed_heights(), final(self).processed_heights(), client_id@, height, host_height, MAX_STATE_HISTORY_SIZE, r),
            final(self).consensus_heights() == old(self).consensus_heights(),
            final(self).processed_times() == old(self).processed_times(),
            final(self).client_ids() == old(self).client_ids(),
    {
        self.client_processed_heights.insert_keeping(client_id, height, host_height, MAX_STATE_HISTORY_SIZE)
    }

    /// Forgets the consensus state of `client_id` at `height`.
    pub fn delete_consensus_state(&mut self, client_id: &String, height: &NearHeight)
        requires
            old(self).wf(),
        ensures
            final(self).wf(),
            old(self).consensus_heights().contains_key(client_id@) ==> final(self).consensus_heights()
                == old(self).consensus_heights().insert(client_id@, old(self).consensus_heights()[client_id@].remove(*height)),
            !old(self).consensus_heights().contains_key(client_id@) ==> final(self).consensus_heights() == old(self).consensus_heights(),
            final(self).processed_times() == old(self).processed_times(),
            final(self).processed_heights() == old(self).processed_heights(),
            final(self).client_ids() == old(self).client_ids(),
    {
        self.client_consensus_state_height_sets.remove_entry(client_id, height);
    }

    /// Forgets when `client_id` was updated at `height`.
    pub fn delete_update_time(&mut self, client_id: &String, height: &NearHeight)
        requires
            old(self).wf(),
        ensures
            final(self).wf(),
            old(self).processed_times().contains_key(client_id@) ==> final(self).processed_times()
                == old(self).processed_times().insert(client_id@, old(self).processed_times()[client_id@].remove(*height)),
            !old(self).processed_times().contains_key(client_id@) ==> final(self).processed_times() == old(self).processed_times(),
            final(self).consensus_heights() == old(self).consensus_heights(),
            final(self).processed_heights() == old(self).processed_heights(),
            final(self).client_ids() == old(self).client_ids(),
    {
        self.client_processed_times.remove_entry(client_id, height);
    }

    /// Forgets the host height at which `client_id` was updated at `height`.
    pub fn delete_update_height(&mut self, client_id: &String, height: &NearHeight)
        requires
            old(self).wf(),
        ensures
            final(self).wf(),
            old(self).processed_heights().contains_key(client_id@) ==> final(self).processed_heights()
                == old(self).processed_heights().insert(client_id@, old(self).processed_heights()[client_id@].remove(*height)),
            !old(self).processed_heights().contains_key(client_id@) ==> final(self).processed_heights() == old(self).processed_heights(),
            final(self).consensus_heights() == old(self).consensus_heights(),
            final(self).processed_times() == old(self).processed_times(),
            final(self).client_ids() == old(self).client_ids(),
    {
        self.client_processed_heights.remove_entry(client_id, height);
    }

    /// When `client_id` was updated at `height`, if that is recorded.
    pub fn client_update_time(&self, client_id: &String, height: &NearHeight) -> (r: Option<u64>)
        requires
            self.wf(),
        ensures
            r is Some <==> entries_in(self.processed_times(), client_id@).contains_key(*height),
            r matches Some(t) ==> t == entries_in(self.processed_times(), client_id@)[*height],
    {
        match self.client_processed_times.get(client_id, height) {
            Some(t) => Some(*t),
            None => None,
        }
    }

    /// The host height at which `client_id` was updated at `height`, if that is recorded.
    pub fn client_update_height(&self, client_id: &String, height: &NearHeight) -> (r: Option<NearHeight>)
        requires
            self.wf(),
        ensures
            r is Some <==> entries_in(self.processed_heights(), client_id@).contains_key(*height),
            r matches Some(h) ==> h == entries_in(self.processed_heights(), client_id@)[*height],
    {
        match self.client_processed_heights.get(client_id, height) {
            Some(h) => Some(*h),
            None => None,
        }
    }

    /// The heights of the stored consensus states of `client_id`, or `None` when
    /// nothing was ever recorded for it.
    pub fn consensus_state_heights(&self, client_id: &String) -> (r: Option<Vec<NearHeight>>)
        requires
            self.wf(),
        ensures
            r is None <==> !self.consensus_heights().contains_key(client_id@),
            r matches Some(v) ==> v@.no_duplicates() && v@.to_set() == self.consensus_heights()[client_id@].dom(),
    {
        self.client_consensus_state_height_sets.keys_of(client_id)
    }

    /// Records a stored client state.
    pub fn store_client_state(&mut self, client_id: String)
        requires
            old(self).wf(),
        ensures
            final(self).wf(),
            final(self).client_ids() == old(self).client_ids().insert(client_id@),
            final(self).consensus_heights() == old(self).consensus_heights(),
            final(self).processed_times() == old(self).processed_times(),
            final(self).processed_heights() == old(self).processed_heights(),
            final(self).connection_ids() == old(self).connection_ids(),
            final(self).port_channels() == old(self).port_channels(),
    {
        set_insert(&mut self.client_id_set, client_id);
    }

    /// Records a stored connection.
    pub fn store_connection(&mut self, connection_id: String)
        requires
            old(self).wf(),
        ensures
            final(self).wf(),
            final(self).connection_ids() == old(self).connection_ids().insert(connection_id@),
            final(self).client_ids() == old(self).client_ids(),
            final(self).port_channels() == old(self).port_channels(),
    {
        set_insert(&mut self.connection_id_set, connection_id);
    }

    /// Records a stored channel.
    pub fn store_channel(&mut self, port_channel: PortChannel)
        requires
            old(self).wf(),
        ensures
            final(self).wf(),
            final(self).port_channels() == old(self).port_channels().insert(port_channel.key_view()),
            final(self).client_ids() == old(self).client_ids(),
            final(self).connection_ids() == old(self).connection_ids(),
            final(self).commitment_sequences() == old(self).commitment_sequences(),
            final(self).receipt_sequences() == old(self).receipt_sequences(),
            final(self).acknowledgement_sequences() == old(self).acknowledgement_sequences(),
    {
        set_insert(&mut self.port_channel_id_set, port_channel);
    }

    /// Counts one more client.
    pub fn increase_client_counter(&mut self)
        requires
            old(self).wf(),
            old(self).client_count() < u64::MAX,
        ensures
            final(self).wf(),
            final(self).client_count() == old(self).client_count() + 1,
            final(self).connection_count() == old(self).connection_count(),
            final(self).channel_count() == old(self).channel_count(),
    {
        self.client_counter = self.client_counter + 1;
    }

    /// Counts one more connection.
    pub fn increase_connection_counter(&mut self)
        requires
            old(self).wf(),
            old(self).connection_count() < u64::MAX,
        ensures
            final(self).wf(),
            final(self).connection_count() == old(self).connection_count() + 1,
            final(self).client_count() == old(self).client_count(),
            final(self).channel_count() == old(self).channel_count(),
    {
        self.connection_counter = self.connection_counter + 1;
    }

    /// Counts one more channel.
    pub fn increase_channel_counter(&mut self)
        requires
            old(self).wf(),
            old(self).channel_count() < u64::MAX,
        ensures
            final(self).wf(),
            final(self).channel_count() == old(self).channel_count() + 1,
            final(self).client_count() == old(self).client_count(),
            final(self).connection_count() == old(self).connection_count(),
    {
        self.channel_counter = self.channel_counter + 1;
    }

    /// The number of clients created.
    pub fn client_counter(&self) -> (r: u64)
        ensures
            r == self.client_count(),
    {
        self.client_counter
    }

    /// The number of connections created.
    pub fn connection_counter(&self) -> (r: u64)
        ensures
            r == self.connection_count(),
    {
        self.connection_counter
    }

    /// The number of channels created.
    pub fn channel_counter(&self) -> (r: u64)
        ensures
            r == self.channel_count(),
    {
        self.channel_counter
    }

    /// Sets the three counters back to zero.
    pub fn clear_counters(&mut self)
        requires
            old(self).wf(),
        ensures
            final(self).wf(),
            old(self).counters_cleared(*final(self)),
    {
        self.client_counter = 0;
        self.connection_counter = 0;
        self.channel_counter = 0;
    }

    /// Records the sequence of a stored packet commitment.
    pub fn store_packet_commitment(&mut self, port_channel: PortChannel, sequence: u64)
        requires
            old(self).wf(),
        ensures
            final(self).wf(),
            final(self).commitment_sequences() == old(self).commitment_sequences().insert(port_channel.key_view(),
                entries_in(old(self).commitment_sequences(), port_channel.key_view()).insert(sequence, ())),
            final(self).receipt_sequences() == old(self).receipt_sequences(),
            final(self).acknowledgement_sequences() == old(self).acknowledgement_sequences(),
            final(self).port_channels() == old(self).port_channels(),
    {
        self.packet_commitment_sequence_sets.insert(port_channel, sequence, ());
    }

    /// Records the sequence of a stored packet receipt.
    pub fn store_packet_receipt(&mut self, port_channel: PortChannel, sequence: u64)
        requires
            old(self).wf(),
        ensures
            final(self).wf(),
            final(self).receipt_sequences() == old(self).receipt_sequences().insert(port_channel.key_view(),
                entries_in(old(self).receipt_sequences(), port_channel.key_view()).insert(sequence, ())),
            final(self).commitment_sequences() == old(self).commitment_sequences(),
            final(self).acknowledgement_sequences() == old(self).acknowledgement_sequences(),
            final(self).port_channels() == old(self).port_channels(),
    {
        self.packet_receipt_sequence_sets.insert(port_channel, sequence, ());
    }

    /// Records the sequence of a stored packet acknowledgement.
    pub fn store_packet_acknowledgement(&mut self, port_channel: PortChannel, sequence: u64)
        requires
            old(self).wf(),
        ensures
            final(self).wf(),
            final(self).acknowledgement_sequences() == old(self).acknowledgement_sequences().insert(port_channel.key_view(),
                entries_in(old(self).acknowledgement_sequences(), port_channel.key_view()).insert(sequence, ())),
            final(self).commitment_sequences() == old(self).commitment_sequences(),
            final(self).receipt_sequences() == old(self).receipt_sequences(),
            final(self).port_channels() == old(self).port_channels(),
    {
        self.packet_acknowledgement_sequence_sets.insert(port_channel, sequence, ());
    }

    /// Forgets the sequence of a deleted packet commitment.
    pub fn delete_packet_commitment(&mut self, port_channel: &PortChannel, sequence: u64)
        requires
            old(self).wf(),
        ensures
            final(self).wf(),
            old(self).commitment_sequences().contains_key(port_channel.key_view()) ==> final(self).commitment_sequences()
                == old(self).commitment_sequences().insert(port_channel.key_view(), old(self).commitment_sequences()[port_channel.key_view()].remove(sequence)),
            !old(self).commitment_sequences().contains_key(port_channel.key_view()) ==> final(self).commitment_sequences() == old(self).commitment_sequences(),
            final(self).receipt_sequences() == old(self).receipt_sequences(),
            final(self).acknowledgement_sequences() == old(self).acknowledgement_sequences(),
            final(self).port_channels() == old(self).port_channels(),
    {
        self.packet_commitment_sequence_sets.remove_entry(port_channel, &sequence);
    }

    /// Forgets the sequence of a deleted packet acknowledgement.
    pub fn delete_packet_acknowledgement(&mut self, port_channel: &PortChannel, sequence: u64)
        requires
            old(self).wf(),
        ensures
            final(self).wf(),
            old(self).acknowledgement_sequences().contains_key(port_channel.key_view()) ==> final(self).acknowledgement_sequences()
                == old(self).acknowledgement_sequences().insert(port_channel.key_view(), old(self).acknowledgement_sequences()[port_channel.key_view()].remove(sequence)),
            !old(self).acknowledgement_sequences().contains_key(port_channel.key_view()) ==> final(self).acknowledgement_sequences() == old(self).acknowledgement_sequences(),
            final(self).commitment_sequences() == old(self).commitment_sequences(),
            final(self).receipt_sequences() == old(self).receipt_sequences(),
            final(self).port_channels() == old(self).port_channels(),
    {
        self.packet_acknowledgement_sequence_sets.remove_entry(port_channel, &sequence);
    }

    /// Forgets a client: its update times and heights, its consensus heights, its
    /// connections and its id. Returns the heights of its consensus states, whose
    /// encoded states are then removed from storage.
    pub fn remove_client(&mut self, client_id: &String) -> (r: Vec<NearHeight>)
        requires
            old(self).wf(),
        ensures
            final(self).wf(),
            old(self).client_removed(*final(self), client_id@, r@),
    {
        self.client_processed_heights.remove_owner(client_id);
        self.client_processed_times.remove_owner(client_id);
        let heights = self.client_consensus_state_height_sets.remove_owner(client_id);
        set_remove(&mut self.client_id_set, client_id);
        self.client_connections.remove(client_id);
        proof {
            assert(self.client_connection_ids() =~= old(self).client_connection_ids().remove(client_id@));
        }
        heights
    }

    /// Records that a connection belongs to a client: the connection id joins the
    /// end of the client's connections.
    pub fn store_connection_to_client(&mut self, client_id: String, connection_id: String)
        requires
            old(self).wf(),
        ensures
            final(self).wf(),
            final(self).client_connection_ids() == old(self).client_connection_ids().insert(client_id@,
                (if old(self).client_connection_ids().contains_key(client_id@) {
                    old(self).client_connection_ids()[client_id@]
                } else {
                    Seq::<Seq<char>>::empty()
                }).push(connection_id@)),
            final(self).client_ids() == old(self).client_ids(),
            final(self).connection_ids() == old(self).connection_ids(),
            final(self).port_channels() == old(self).port_channels(),
            final(self).consensus_heights() == old(self).consensus_heights(),
    {
        let ghost old_map = self.client_connections@;
        let ghost prior = if self.client_connection_ids().contains_key(client_id@) {
            self.client_connection_ids()[client_id@]
        } else {
            Seq::<Seq<char>>::empty()
        };
        let mut ids: Vec<String> = match self.client_connections.remove(&client_id) {
            Some(v) => v,
            None => Vec::new(),
        };
        proof {
            assert(id_texts(ids@) =~= prior);
        }
        let ghost before = ids@;
        ids.push(connection_id);
        proof {
            assert(id_texts(ids@) =~= id_texts(before).push(ids@[before.len() as int]@));
            assert(id_texts(ids@) =~= prior.push(connection_id@));
        }
        let ghost new_ids = ids;
        let ghost cid = client_id@;
        self.client_connections.insert(client_id, ids);
        proof {
            assert(self.client_connections@ =~= old_map.insert(cid, new_ids));
            assert(self.client_connection_ids() =~= old(self).client_connection_ids().insert(cid, prior.push(connection_id@)));
        }
    }

    /// The connections of a client, in the order in which they were stored; none
    /// when it has none.
    pub fn get_client_connections(&self, client_id: &String) -> (r: Vec<String>)
        requires
            self.wf(),
        ensures
            id_texts(r@) == (if self.client_connection_ids().contains_key(client_id@) {
                self.client_connection_ids()[client_id@]
            } else {
                Seq::<Seq<char>>::empty()
            }),
    {
        let mut r: Vec<String> = Vec::new();
        match self.client_connections.get(client_id) {
            Some(ids) => {
                let mut i: usize = 0;
                while i < ids.len()
                    invariant
                        i <= ids@.len(),
                        r@.len() == i,
                        forall|j: int| 0 <= j < i ==> (#[trigger] r@[j])@ == ids@[j]@,
                    decreases ids@.len() - i,
                {
                    r.push(ids[i].clone());
                    i = i + 1;
                }
                proof {
                    assert(id_texts(r@) =~= id_texts(ids@));
                }
            },
            None => {
                proof {
                    assert(id_texts(r@) =~= Seq::<Seq<char>>::empty());
                }
            },
        }
        r
    }

    /// Forgets a connection.
    pub fn remove_connection(&mut self, connection_id: &String)
        requires
            old(self).wf(),
        ensures
            final(self).wf(),
            old(self).connection_removed(*final(self), connection_id@),
    {
        set_remove(&mut self.connection_id_set, connection_id);
    }

    /// Forgets a channel. Returns the sequences of its packet commitments, receipts
    /// and acknowledgements, whose entries are then removed from storage.
    pub fn remove_channel(&mut self, port_channel: &PortChannel) -> (r: (Vec<u64>, Vec<u64>, Vec<u64>))
        requires
            old(self).wf(),
        ensures
            final(self).wf(),
            old(self).channel_removed(*final(self), port_channel.key_view(), (r.0@, r.1@, r.2@)),
    {
        let commitments = keys_or_none(self.packet_commitment_sequence_sets.keys_of(port_channel));
        let receipts = keys_or_none(self.packet_receipt_sequence_sets.keys_of(port_channel));
        let acks = keys_or_none(self.packet_acknowledgement_sequence_sets.keys_of(port_channel));
        set_remove(&mut self.port_channel_id_set, port_channel);
        proof {
            assert(Map::<u64, ()>::empty().dom() =~= Set::<u64>::empty());
        }
        (commitments, receipts, acks)
    }

    /// Removes consensus heights of `client_id`, least first: those below
    /// `lt_height` when it is given, else all. At most `removal_budget` heights
    /// (at least one) are removed in one call; when the budget is used up the
    /// result is `NeedMoreGas`, and another call goes on. Returns the removed
    /// heights, whose encoded states are then removed from storage.
    pub fn clear_consensus_state_by(
        &mut self,
        client_id: &String,
        lt_height: Option<&NearHeight>,
        removal_budget: u64,
    ) -> (r: (ProcessingResult, Vec<NearHeight>))
        requires
            old(self).wf(),
            old(self).consensus_heights().contains_key(client_id@),
        ensures
            final(self).wf(),
            old(self).consensus_states_cleared(*final(self), client_id@, lt_height, removal_budget, r.0, r.1@),
    {
        let budget: u64 = if removal_budget == 0 { 1 } else { removal_budget };
        let ghost hs = old(self).consensus_heights()[client_id@].dom();
        let ghost lower = below_keys(hs, lt_height);
        let mut removed: Vec<NearHeight> = Vec::new();
        let mut finished = false;
        let mut need_more = false;
        proof {
            assert(old(self).consensus_heights()[client_id@].remove_keys(removed@.to_set()) =~= old(self).consensus_heights()[client_id@]);
            assert(removed@.to_set() =~= Set::<NearHeight>::empty());
        }
        while !finished
            invariant
                self.wf(),
                budget == (if removal_budget == 0 { 1 } else { removal_budget }),
                hs == old(self).consensus_heights()[client_id@].dom(),
                lower == below_keys(hs, lt_height),
                removed@.no_duplicates(),
                removed@.len() <= budget,
                !finished ==> removed@.len() < budget,
                need_more <==> removed@.len() == budget,
                finished && !need_more ==> removed@.to_set() == lower,
                removed@.to_set().subset_of(lower),
                forall|x: NearHeight, y: NearHeight| #[trigger] removed@.to_set().contains(x) && #[trigger] lower.contains(y) && !removed@.to_set().contains(y)
                    ==> x.precedes(y),
                self.consensus_heights() == old(self).consensus_heights().insert(client_id@,
                    old(self).consensus_heights()[client_id@].remove_keys(removed@.to_set())),
                self.client_ids() == old(self).client_ids(),
                self.processed_times() == old(self).processed_times(),
                self.processed_heights() == old(self).processed_heights(),
            decreases budget - removed@.len() + (if finished { 0int } else { 1int }),
        {
            let ghost rs = removed@.to_set();
            let ghost old_removed = removed@;
            proof {
                assert(entries_in(self.consensus_heights(), client_id@).dom() =~= hs.difference(rs));
                assert(below_keys(hs.difference(rs), lt_height) =~= lower.difference(rs));
            }
            match self.client_consensus_state_height_sets.least_key_of(client_id, lt_height) {
                Some(m) => {
                    proof {
                        assert(lower.difference(rs).contains(m));
                    }
                    self.client_consensus_state_height_sets.remove_entry(client_id, &m);
                    removed.push(m);
                    proof {
                        let rs2 = removed@.to_set();
                        lemma_push_to_set(old_removed, m);
                        assert(rs2 =~= rs.insert(m));
                        assert(old(self).consensus_heights()[client_id@].remove_keys(rs).remove(m)
                            =~= old(self).consensus_heights()[client_id@].remove_keys(rs2));
                        assert forall|x: NearHeight, y: NearHeight| #[trigger] rs2.contains(x) && #[trigger] lower.contains(y) && !rs2.contains(y)
                            implies x.precedes(y) by {
                            if x == m {
                                assert(lower.difference(rs).contains(y));
                            }
                        }
                        assert(!rs.contains(m));
                        assert(removed@.no_duplicates());
                    }
                    if removed.len() as u64 >= budget {
                        need_more = true;
                        finished = true;
                    }
                },
                None => {
                    proof {
                        assert(lower.difference(rs) =~= Set::<NearHeight>::empty());
                        assert(rs =~= lower) by {
                            assert forall|x: NearHeight| lower.contains(x) implies rs.contains(x) by {
                                if !rs.contains(x) {
                                    assert(lower.difference(rs).contains(x));
                                }
                            }
                        }
                    }
                    finished = true;
                },
            }
        }
        let result = if need_more { ProcessingResult::NeedMoreGas } else { ProcessingResult::Done };
        (result, removed)
    }

    /// Records an event that happened at the host height `height`: it joins the
    /// events of that height, or the height is appended to the history with it.
    pub fn emit_ibc_event(&mut self, height: NearHeight, event: IbcEventRecord)
        requires
            old(self).wf(),
            !stored_between(old(self).history().index_map(), old(self).history().start(), old(self).history().end(), height) ==> {
                &&& may_follow(old(self).history().index_map(), old(self).history().end(), height)
                &&& old(self).history().end() + 1 < u64::MAX
            },
        ensures
            final(self).wf(),
            final(self).client_ids() == old(self).client_ids(),
            final(self).consensus_heights() == old(self).consensus_heights(),
            ({
                let q0 = old(self).history();
                let q1 = final(self).history();
                if stored_between(q0.index_map(), q0.start(), q0.end(), height) {
                    &&& q1.index_map() == q0.index_map()
                    &&& q1.start() == q0.start() && q1.end() == q0.end() && q1.max() == q0.max()
                    &&& q0.value_map().contains_key(height) ==> {
                        &&& q1.value_map() == q0.value_map().insert(height, q1.value_map()[height])
                        &&& q1.value_map()[height]@ == q0.value_map()[height]@.push(event)
                    }
                    &&& !q0.value_map().contains_key(height) ==> q1.value_map() == q0.value_map()
                } else {
                    let s1: u64 = if q0.start() == 0 && q0.end() == 0 { 1 } else { q0.start() };
                    let e1 = (q0.end() + 1) as u64;
                    let im1 = q0.index_map().insert(e1, height);
                    let vm1 = q0.value_map().insert(height, q1.value_map()[height]);
                    &&& q1.max() == q0.max()
                    &&& q1.end() == e1
                    &&& q1.value_map().contains_key(height) ==> q1.value_map()[height]@ == seq![event]
                    &&& if e1 + 1 - s1 > q0.max() {
                        &&& q1.start() == s1 + 1
                        &&& q1.index_map() == im1.remove(s1)
                        &&& q1.value_map() == vm1.remove(im1[s1])
                    } else {
                        &&& q1.start() == s1
                        &&& q1.index_map() == im1
                        &&& q1.value_map() == vm1
                    }
                }
            }),
    {
        proof {
            self.ibc_events_history.lemma_shape();
        }
        if self.ibc_events_history.contains_key(&height) {
            match self.ibc_events_history.get_value_by_key_mut(&height) {
                Some(events) => {
                    events.push(event);
                },
                None => {},
            }
        } else {
            let events = vec![event];
            let ghost ev = events;
            let ghost q0 = self.ibc_events_history;
            self.ibc_events_history.push_back((height, events));
            proof {
                let q1 = self.ibc_events_history;
                let s1: u64 = if q0.start() == 0 && q0.end() == 0 { 1 } else { q0.start() };
                let e1 = (q0.end() + 1) as u64;
                let im1 = q0.index_map().insert(e1, height);
                if q1.value_map().contains_key(height) {
                    assert(q1.value_map()[height] == ev);
                    assert(q0.value_map().insert(height, q1.value_map()[height]) == q0.value_map().insert(height, ev));
                } else {
                    assert(e1 + 1 - s1 > q0.max());
                    assert(im1[s1] == height);
                    assert(q0.value_map().insert(height, q1.value_map()[height]).remove(height)
                        =~= q0.value_map().insert(height, ev).remove(height));
                }
            }
        }
    }

    /// The heights at which events happened, oldest first.
    pub fn get_ibc_events_heights(&self) -> (r: Vec<NearHeight>)
        requires
            self.wf(),
        ensures
            self.history().start() == 0 ==> r@.len() == 0,
            self.history().start() != 0 ==> r@.len() == span(self.history().start(), self.history().end()),
            forall|j: int| 0 <= j < r@.len() ==> #[trigger] r@[j] == self.history().index_map()[(self.history().start() + j) as u64],
    {
        proof {
            self.ibc_events_history.lemma_shape();
        }
        let keys = self.ibc_events_history.keys();
        let mut r: Vec<NearHeight> = Vec::new();
        let mut i: usize = 0;
        while i < keys.len()
            invariant
                self.wf(),
                keys@.len() == span(self.history().start(), self.history().end()),
                forall|j: int| 0 <= j < keys@.len() ==> crate::queue_viewer::same_key_ref(#[trigger] keys@[j],
                    map_get(self.history().index_map(), (self.history().start() + j) as u64)),
                forall|i: u64| #[trigger] self.history().index_map().contains_key(i)
                    <==> (1 <= self.history().start() <= i <= self.history().end()),
                self.history().start() == 0 ==> self.history().end() == 0,
                i <= keys@.len(),
                r@.len() == (if self.history().start() == 0 { 0 } else { i as int }),
                forall|j: int| 0 <= j < r@.len() ==> #[trigger] r@[j] == self.history().index_map()[(self.history().start() + j) as u64],
            decreases keys@.len() - i,
        {
            proof {
                let k = (self.history().start() + i) as u64;
                if self.history().start() >= 1 {
                    assert(self.history().index_map().contains_key(k));
                } else {
                    assert(!self.history().index_map().contains_key(k));
                }
            }
            match keys[i] {
                Some(k) => r.push(*k),
                None => {},
            }
            i = i + 1;
        }
        r
    }

    /// The events that happened at `height`, none when the history has none.
    pub fn get_ibc_events_at(&self, height: &NearHeight) -> (r: Vec<IbcEventRecord>)
        requires
            self.wf(),
        ensures
            self.history().value_map().contains_key(*height) ==> r@ == self.history().value_map()[*height]@,
            !self.history().value_map().contains_key(*height) ==> r@ == Seq::<IbcEventRecord>::empty(),
    {
        let mut r: Vec<IbcEventRecord> = Vec::new();
        match self.ibc_events_history.get_value_by_key(height) {
            Some(events) => {
                let mut i: usize = 0;
                while i < events.len()
                    invariant
                        i <= events.len(),
                        r@ == events@.subrange(0, i as int),
                    decreases events.len() - i,
                {
                    r.push(events[i].copied());
                    i = i + 1;
                    assert(r@ =~= events@.subrange(0, i as int));
                }
                assert(r@ =~= events@);
            },
            None => {},
        }
        r
    }

    /// Empties the history of IBC events.
    pub fn clear_ibc_events_history(&mut self) -> (r: ProcessingResult)
        requires
            old(self).wf(),
        ensures
            final(self).wf(),
            r is Done,
            old(self).history_cleared(*final(self)),
    {
        self.ibc_events_history.clear();
        ProcessingResult::Done
    }

    /// Sets the maximum length of the history of IBC events, dropping the oldest
    /// heights that do not fit.
    pub fn set_max_length_of_ibc_events_history(&mut self, max_length: u64) -> (r: ProcessingResult)
        requires
            old(self).wf(),
            !(old(self).history().start() == 0 && max_length == 0),
        ensures
            final(self).wf(),
            r is Done,
            final(self).history().max() == max_length,
            final(self).history().end() == old(self).history().end(),
            ({
                let q0 = old(self).history();
                let d = if q0.start() == 0 { 0 } else { crate::indexed_lookup_queue::excess(span(q0.start(), q0.end()), max_length) };
                let new_start = q0.start() + d;
                &&& final(self).history().start() == new_start
                &&& final(self).history().index_map() == q0.index_map().remove_keys(Set::new(|i: u64| i < new_start))
                &&& final(self).history().value_map() == q0.value_map().remove_keys(
                    crate::indexed_lookup_queue::keys_at(q0.index_map(), q0.start(), new_start))
            }),
            final(self).client_ids() == old(self).client_ids(),
            final(self).consensus_heights() == old(self).consensus_heights(),
    {
        self.ibc_events_history.set_max_length(max_length);
        ProcessingResult::Done
    }

    /// The packet events that answer the query: for a query of the heights up
    /// to a height, each such height of the history, oldest first, with its
    /// matching events; for a query of one height, that height with its matching
    /// events. The latest height is the last one of the history.
    pub fn get_packet_events(&self, request: &QueryPacketEventDataRequest) -> (r: Vec<(NearHeight, Vec<IbcEventRecord>)>)
        requires
            self.wf(),
            request.height matches Qualified::Equal(QueryHeight::Latest)
                ==> query_target(self.history(), QueryHeight::Latest) is Some,
        ensures
            match request.height {
                Qualified::SmallerEqual(qh) => match query_target(self.history(), qh) {
                    None => r@.len() == 0,
                    Some(t) => {
                        let sel = history_heights(self.history()).filter(|k: NearHeight| !t.precedes(k));
                        &&& r@.len() == sel.len()
                        &&& forall|i: int| 0 <= i < r@.len() ==> {
                            &&& (#[trigger] r@[i]).0 == sel[i]
                            &&& r@[i].1@ == matching_events(*request, events_at(self.history().value_map(), sel[i]))
                        }
                    },
                },
                Qualified::Equal(qh) => {
                    let t = query_target(self.history(), qh).unwrap();
                    &&& r@.len() == 1
                    &&& r@[0].0 == t
                    &&& r@[0].1@ == matching_events(*request, events_at(self.history().value_map(), t))
                },
            },
    {
        proof {
            self.ibc_events_history.lemma_shape();
        }
        let mut result: Vec<(NearHeight, Vec<IbcEventRecord>)> = Vec::new();
        let (query_height, in_range) = match &request.height {
            Qualified::SmallerEqual(q) => (q, true),
            Qualified::Equal(q) => (q, false),
        };
        let target: Option<NearHeight> = match query_height {
            QueryHeight::Latest => match self.ibc_events_history.last_key() {
                Some(k) => Some(*k),
                None => None,
            },
            QueryHeight::Specific(h) => Some(*h),
        };
        if in_range {
            match target {
                Some(t) => {
                    if self.ibc_events_history.start_index() != 0 {
                        let start = self.ibc_events_history.start_index();
                        let stop: u64 = self.ibc_events_history.end_index() + 1;
                        let ghost hh = history_heights(self.history());
                        let ghost p = |k: NearHeight| !t.precedes(k);
                        let mut index: u64 = start;
                        proof {
                            reveal(Seq::filter);
                            assert(hh.subrange(0, 0) =~= Seq::<NearHeight>::empty());
                        }
                        while index < stop
                            invariant
                                self.wf(),
                                start == self.history().start(),
                                start >= 1,
                                stop == self.history().end() + 1,
                                start <= index <= stop,
                                hh == history_heights(self.history()),
                                hh.len() == stop - start,
                                p == (|k: NearHeight| !t.precedes(k)),
                                forall|i: u64| #[trigger] self.history().index_map().contains_key(i)
                                    <==> (1 <= self.history().start() <= i <= self.history().end()),
                                ({
                                    let sel = hh.subrange(0, index - start).filter(p);
                                    &&& result@.len() == sel.len()
                                    &&& forall|i: int| 0 <= i < result@.len() ==> {
                                        &&& (#[trigger] result@[i]).0 == sel[i]
                                        &&& result@[i].1@ == matching_events(*request, events_at(self.history().value_map(), sel[i]))
                                    }
                                }),
                            decreases stop - index,
                        {
                            let j = index - start;
                            proof {
                                reveal(Seq::filter);
                                assert(hh.subrange(0, j + 1).drop_last() =~= hh.subrange(0, j as int));
                                assert(hh.subrange(0, j + 1).last() == hh[j as int]);
                                assert(self.history().index_map().contains_key(index));
                            }
                            match self.ibc_events_history.get_key_by_index(&index) {
                                Some(k) => {
                                    let key = *k;
                                    if !t.is_before(&key) {
                                        let events = self.get_ibc_events_at(&key);
                                        gather_ibc_events_with_height(&mut result, key, &events, request);
                                    }
                                },
                                None => {},
                            }
                            index = index + 1;
                        }
                        proof {
                            assert(hh.subrange(0, stop - start) =~= hh);
                        }
                    } else {
                        proof {
                            reveal(Seq::filter);
                            assert(history_heights(self.history()) =~= Seq::<NearHeight>::empty());
                        }
                    }
                },
                None => {},
            }
        } else {
            match target {
                Some(t) => {
                    let events = self.get_ibc_events_at(&t);
                    gather_ibc_events_with_height(&mut result, t, &events, request);
                },
                None => {},
            }
        }
        result
    }

    /// Those of `sequences` that the channel has no receipt of, in their order.
    pub fn get_unreceipt_packet(&self, port_channel: &PortChannel, sequences: &Vec<u64>) -> (r: Vec<u64>)
        requires
            self.wf(),
        ensures
            r@ == sequences@.filter(|q: u64| !entries_in(self.receipt_sequences(), port_channel.key_view()).contains_key(q)),
    {
        let ghost stored = entries_in(self.receipt_sequences(), port_channel.key_view());
        let ghost p = |q: u64| !stored.contains_key(q);
        let mut r: Vec<u64> = Vec::new();
        let mut i: usize = 0;
        proof {
            reveal(Seq::filter);
            assert(sequences@.subrange(0, 0) =~= Seq::<u64>::empty());
        }
        while i < sequences.len()
            invariant
                self.wf(),
                stored == entries_in(self.receipt_sequences(), port_channel.key_view()),
                p == (|q: u64| !stored.contains_key(q)),
                i <= sequences.len(),
                r@ == sequences@.subrange(0, i as int).filter(p),
            decreases sequences.len() - i,
        {
            proof {
                reveal(Seq::filter);
                assert(sequences@.subrange(0, i + 1).drop_last() =~= sequences@.subrange(0, i as int));
            }
            let q = sequences[i];
            if self.packet_receipt_sequence_sets.get(port_channel, &q).is_none() {
                r.push(q);
            }
            i = i + 1;
        }
        proof {
            assert(sequences@.subrange(0, sequences@.len() as int) =~= sequences@);
        }
        r
    }

    /// The sequences of the stored packet commitments of a channel.
    pub fn get_packet_commitment_sequences(&self, port_channel: &PortChannel) -> (r: Vec<u64>)
        requires
            self.wf(),
        ensures
            r@.no_duplicates(),
            r@.to_set() == entries_in(self.commitment_sequences(), port_channel.key_view()).dom(),
    {
        proof {
            assert(Map::<u64, ()>::empty().dom() =~= Set::<u64>::empty());
        }
        keys_or_none(self.packet_commitment_sequence_sets.keys_of(port_channel))
    }

    /// The sequences of the stored packet acknowledgements of a channel.
    pub fn get_packet_acknowledgement_sequences(&self, port_channel: &PortChannel) -> (r: Vec<u64>)
        requires
            self.wf(),
        ensures
            r@.no_duplicates(),
            r@.to_set() == entries_in(self.acknowledgement_sequences(), port_channel.key_view()).dom(),
    {
        proof {
            assert(Map::<u64, ()>::empty().dom() =~= Set::<u64>::empty());
        }
        keys_or_none(self.packet_acknowledgement_sequence_sets.keys_of(port_channel))
    }

    /// The heights of the stored consensus states of a client, none when it has none.
    pub fn get_client_consensus_heights(&self, client_id: &String) -> (r: Vec<NearHeight>)
        requires
            self.wf(),
        ensures
            r@.no_duplicates(),
            r@.to_set() == entries_in(self.consensus_heights(), client_id@).dom(),
    {
        match self.consensus_state_heights(client_id) {
            Some(v) => v,
            None => {
                let v: Vec<NearHeight> = Vec::new();
                proof {
                    assert(Map::<NearHeight, ()>::empty().dom() =~= Set::<NearHeight>::empty());
                    assert(v@.to_set() =~= Set::<NearHeight>::empty());
                }
                v
            },
        }
    }

    /// Forgets stored connections, oldest first, at most `clear_limit(removal_budget)`
    /// of them in one call; `NeedMoreGas` when that many were removed, so that
    /// another call goes on. Returns the removed connection ids.
    pub fn clear_connections(&mut self, removal_budget: u64) -> (r: (ProcessingResult, Vec<String>))
        requires
            old(self).wf(),
        ensures
            final(self).wf(),
            old(self).connections_cleared(*final(self), removal_budget, r.0, r.1@),
    {
        let limit: u64 = if removal_budget == 0 { 1 } else if removal_budget > 100 { 100 } else { removal_budget };
        let ghost ids = old(self).connection_id_order();
        let mut removed: Vec<String> = Vec::new();
        proof {
            self.connection_id_set.lemma_keys();
        }
        while (removed.len() as u64) < limit && self.connection_id_set.len() > 0
            invariant
                self.wf(),
                ids == old(self).connection_id_order(),
                ids.no_duplicates(),
                forall|c: Seq<char>| #[trigger] old(self).connection_ids().contains(c) <==> ids.contains(c),
                limit == clear_limit(removal_budget),
                removed@.len() <= limit,
                removed@.len() <= ids.len(),
                forall|i: int| 0 <= i < removed@.len() ==> (#[trigger] removed@[i])@ == ids[i],
                self.connection_id_order() == ids.subrange(removed@.len() as int, ids.len() as int),
                self.connection_ids() == old(self).connection_ids().difference(ids.subrange(0, removed@.len() as int).to_set()),
                self.client_ids() == old(self).client_ids(),
                self.port_channels() == old(self).port_channels(),
                self.consensus_heights() == old(self).consensus_heights(),
            decreases ids.len() - removed@.len(),
        {
            let ghost n = removed@.len() as int;
            let id = self.connection_id_set.key_at(0);
            proof {
                self.connection_id_set.lemma_remove_first();
                assert(id@ == ids[n]);
            }
            self.connection_id_set.remove(&id);
            removed.push(id);
            proof {
                assert(self.connection_id_order() =~= ids.subrange(n + 1, ids.len() as int));
                lemma_prefix_to_set(ids, n);
                assert(self.connection_ids() =~= old(self).connection_ids().difference(ids.subrange(0, n + 1).to_set()));
            }
        }
        let result = if (removed.len() as u64) >= limit { ProcessingResult::NeedMoreGas } else { ProcessingResult::Done };
        proof {
            if removed@.len() < limit {
                assert(self.connection_id_order().len() == 0);
            }
        }
        (result, removed)
    }

    /// Forgets stored clients, oldest first, at most `clear_limit(removal_budget)`
    /// of them in one call, as `remove_client` does; `NeedMoreGas` when that many
    /// were removed, so that another call goes on. Returns each removed client id
    /// with the heights of its consensus states, which are then removed from storage.
    pub fn clear_clients(&mut self, removal_budget: u64) -> (r: (ProcessingResult, Vec<(String, Vec<NearHeight>)>))
        requires
            old(self).wf(),
        ensures
            final(self).wf(),
            old(self).clients_cleared(*final(self), removal_budget, r.0, r.1@),
    {
        let limit: u64 = if removal_budget == 0 { 1 } else if removal_budget > 100 { 100 } else { removal_budget };
        let ghost ids = old(self).client_id_order();
        let mut removed: Vec<(String, Vec<NearHeight>)> = Vec::new();
        proof {
            self.client_id_set.lemma_keys();
            assert(ids.subrange(0, 0).to_set() =~= Set::<Seq<char>>::empty());
            assert(old(self).consensus_heights().remove_keys(Set::<Seq<char>>::empty()) =~= old(self).consensus_heights());
            assert(old(self).processed_times().remove_keys(Set::<Seq<char>>::empty()) =~= old(self).processed_times());
            assert(old(self).processed_heights().remove_keys(Set::<Seq<char>>::empty()) =~= old(self).processed_heights());
            assert(old(self).client_connection_ids().remove_keys(Set::<Seq<char>>::empty()) =~= old(self).client_connection_ids());
            assert(old(self).client_ids().difference(Set::<Seq<char>>::empty()) =~= old(self).client_ids());
        }
        while (removed.len() as u64) < limit && self.client_id_set.len() > 0
            invariant
                self.wf(),
                ids == old(self).client_id_order(),
                ids.no_duplicates(),
                limit == clear_limit(removal_budget),
                removed@.len() <= limit,
                removed@.len() <= ids.len(),
                forall|i: int| 0 <= i < removed@.len() ==> (#[trigger] removed@[i]).0@ == ids[i]
                    && removed@[i].1@.to_set() == entries_in(old(self).consensus_heights(), ids[i]).dom(),
                self.client_id_order() == ids.subrange(removed@.len() as int, ids.len() as int),
                self.client_ids() == old(self).client_ids().difference(ids.subrange(0, removed@.len() as int).to_set()),
                self.consensus_heights() == old(self).consensus_heights().remove_keys(ids.subrange(0, removed@.len() as int).to_set()),
                self.processed_times() == old(self).processed_times().remove_keys(ids.subrange(0, removed@.len() as int).to_set()),
                self.processed_heights() == old(self).processed_heights().remove_keys(ids.subrange(0, removed@.len() as int).to_set()),
                self.client_connection_ids() == old(self).client_connection_ids().remove_keys(ids.subrange(0, removed@.len() as int).to_set()),
                self.connection_ids() == old(self).connection_ids(),
                self.port_channels() == old(self).port_channels(),
            decreases ids.len() - removed@.len(),
        {
            let ghost n = removed@.len() as int;
            let ghost gone = ids.subrange(0, n).to_set();
            let id = self.client_id_set.key_at(0);
            proof {
                self.client_id_set.lemma_remove_first();
                assert(id@ == ids[n]);
                assert(!gone.contains(ids[n])) by {
                    if gone.contains(ids[n]) {
                        let j = choose|j: int| 0 <= j < n && ids.subrange(0, n)[j] == ids[n];
                        assert(ids[j] == ids[n]);
                    }
                }
            }
            self.client_processed_heights.remove_owner(&id);
            self.client_processed_times.remove_owner(&id);
            let heights = self.client_consensus_state_height_sets.remove_owner(&id);
            self.client_id_set.remove(&id);
            let ghost connections_before = self.client_connection_ids();
            self.client_connections.remove(&id);
            proof {
                assert(self.client_connection_ids() =~= connections_before.remove(id@));
            }
            removed.push((id, heights));
            proof {
                lemma_prefix_to_set(ids, n);
                let gone2 = ids.subrange(0, n + 1).to_set();
                assert(self.client_id_order() =~= ids.subrange(n + 1, ids.len() as int));
                assert(self.client_ids() =~= old(self).client_ids().difference(gone2));
                assert(self.consensus_heights() =~= old(self).consensus_heights().remove_keys(gone2));
                assert(self.processed_times() =~= old(self).processed_times().remove_keys(gone2));
                assert(self.processed_heights() =~= old(self).processed_heights().remove_keys(gone2));
                assert(self.client_connection_ids() =~= old(self).client_connection_ids().remove_keys(gone2));
                assert(entries_in(old(self).consensus_heights().remove_keys(gone), ids[n]) == entries_in(old(self).consensus_heights(), ids[n]));
            }
        }
        let result = if (removed.len() as u64) >= limit { ProcessingResult::NeedMoreGas } else { ProcessingResult::Done };
        proof {
            if removed@.len() < limit {
                assert(self.client_id_order().len() == 0);
            }
        }
        (result, removed)
    }

    /// Forgets stored channels, oldest first, at most `clear_limit(removal_budget)`
    /// of them in one call, as `remove_channel` does; `NeedMoreGas` when that many
    /// were removed, so that another call goes on. Returns each removed channel
    /// with the sequences of its packet commitments, receipts and acknowledgements.
    pub fn clear_channels(&mut self, removal_budget: u64) -> (r: (ProcessingResult, Vec<(PortChannel, (Vec<u64>, Vec<u64>, Vec<u64>))>))
        requires
            old(self).wf(),
        ensures
            final(self).wf(),
            old(self).channels_cleared(*final(self), removal_budget, r.0, r.1@),
    {
        let limit: u64 = if removal_budget == 0 { 1 } else if removal_budget > 100 { 100 } else { removal_budget };
        let ghost pcs = old(self).port_channel_order();
        let mut removed: Vec<(PortChannel, (Vec<u64>, Vec<u64>, Vec<u64>))> = Vec::new();
        proof {
            self.port_channel_id_set.lemma_keys();
            assert(pcs.subrange(0, 0).to_set() =~= Set::<(Seq<char>, Seq<char>)>::empty());
            assert(old(self).port_channels().difference(Set::<(Seq<char>, Seq<char>)>::empty()) =~= old(self).port_channels());
        }
        while (removed.len() as u64) < limit && self.port_channel_id_set.len() > 0
            invariant
                self.wf(),
                pcs == old(self).port_channel_order(),
                pcs.no_duplicates(),
                limit == clear_limit(removal_budget),
                removed@.len() <= limit,
                removed@.len() <= pcs.len(),
                forall|i: int| 0 <= i < removed@.len() ==> {
                    &&& (#[trigger] removed@[i]).0.key_view() == pcs[i]
                    &&& removed@[i].1.0@.to_set() == entries_in(old(self).commitment_sequences(), pcs[i]).dom()
                    &&& removed@[i].1.1@.to_set() == entries_in(old(self).receipt_sequences(), pcs[i]).dom()
                    &&& removed@[i].1.2@.to_set() == entries_in(old(self).acknowledgement_sequences(), pcs[i]).dom()
                },
                self.port_channel_order() == pcs.subrange(removed@.len() as int, pcs.len() as int),
                self.port_channels() == old(self).port_channels().difference(pcs.subrange(0, removed@.len() as int).to_set()),
                self.client_ids() == old(self).client_ids(),
                self.connection_ids() == old(self).connection_ids(),
                self.commitment_sequences() == old(self).commitment_sequences(),
                self.receipt_sequences() == old(self).receipt_sequences(),
                self.acknowledgement_sequences() == old(self).acknowledgement_sequences(),
                self.consensus_heights() == old(self).consensus_heights(),
            decreases pcs.len() - removed@.len(),
        {
            let ghost n = removed@.len() as int;
            let pc = self.port_channel_id_set.key_at(0);
            proof {
                self.port_channel_id_set.lemma_remove_first();
                assert(pc.key_view() == pcs[n]);
            }
            let commitments = keys_or_none(self.packet_commitment_sequence_sets.keys_of(&pc));
            let receipts = keys_or_none(self.packet_receipt_sequence_sets.keys_of(&pc));
            let acks = keys_or_none(self.packet_acknowledgement_sequence_sets.keys_of(&pc));
            self.port_channel_id_set.remove(&pc);
            let sequences = (commitments, receipts, acks);
            proof {
                assert(Map::<u64, ()>::empty().dom() =~= Set::<u64>::empty());
                lemma_prefix_to_set(pcs, n);
                assert(self.port_channel_order() =~= pcs.subrange(n + 1, pcs.len() as int));
                assert(self.port_channels() =~= old(self).port_channels().difference(pcs.subrange(0, n + 1).to_set()));
            }
            removed.push((pc, sequences));
        }
        let result = if (removed.len() as u64) >= limit { ProcessingResult::NeedMoreGas } else { ProcessingResult::Done };
        proof {
            if removed@.len() < limit {
                assert(self.port_channel_order().len() == 0);
            }
        }
        (result, removed)
    }

    /// Forgets a client whose states are not decoded: its update times and
    /// heights, its consensus heights and its id; its connections stay.
    pub fn remove_raw_client(&mut self, client_id: &String)
        requires
            old(self).wf(),
        ensures
            final(self).wf(),
            old(self).raw_client_removed(*final(self), client_id@),
    {
        self.client_processed_heights.remove_owner(client_id);
        self.client_processed_times.remove_owner(client_id);
        self.client_consensus_state_height_sets.remove_owner(client_id);
        set_remove(&mut self.client_id_set, client_id);
    }

    /// Each client and each channel has finitely many heights and sequences.
    pub proof fn lemma_finite(&self)
        requires
            self.wf(),
        ensures
            forall|c: Seq<char>| #[trigger] entries_in(self.consensus_heights(), c).dom().finite(),
            forall|c: Seq<char>| #[trigger] entries_in(self.processed_times(), c).dom().finite(),
            forall|c: Seq<char>| #[trigger] entries_in(self.processed_heights(), c).dom().finite(),
    {
        self.client_consensus_state_height_sets.lemma_finite();
        self.client_processed_times.lemma_finite();
        self.client_processed_heights.lemma_finite();
        assert forall|c: Seq<char>| #[trigger] entries_in(self.consensus_heights(), c).dom().finite() by {
            assert(self.client_consensus_state_height_sets.entries_of(c).dom().finite());
        }
        assert forall|c: Seq<char>| #[trigger] entries_in(self.processed_times(), c).dom().finite() by {
            assert(self.client_processed_times.entries_of(c).dom().finite());
        }
        assert forall|c: Seq<char>| #[trigger] entries_in(self.processed_heights(), c).dom().finite() by {
            assert(self.client_processed_heights.entries_of(c).dom().finite());
        }
    }
}

/// Storing consensus states keeps at most `MAX_STATE_HISTORY_SIZE` of them per
/// client: a client that had at most that many has at most that many after, the
/// new height among them unless it is the least one, which is dropped.
pub proof fn law_consensus_history_bounded(s0: NearIbcStore, s1: NearIbcStore, client_id: Seq<char>, height: NearHeight, r: Option<NearHeight>)
    requires
        s0.wf(),
        entries_in(s0.consensus_heights(), client_id).len() <= MAX_STATE_HISTORY_SIZE,
        recorded_keeping(s0.consensus_heights(), s1.consensus_heights(), client_id, height, (), MAX_STATE_HISTORY_SIZE, r),
    ensures
        entries_in(s1.consensus_heights(), client_id).len() <= MAX_STATE_HISTORY_SIZE,
        r != Some(height) ==> entries_in(s1.consensus_heights(), client_id).contains_key(height),
{
    s0.lemma_finite();
    law_recorded_keeping_bounded(s0.consensus_heights(), s1.consensus_heights(), client_id, height, (), MAX_STATE_HISTORY_SIZE, r);
}

} // verus!
