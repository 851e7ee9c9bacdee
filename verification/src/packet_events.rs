use vstd::prelude::*;
use crate::ordering::NearHeight;
use crate::text::same_text;
use crate::types::Qualified;

verus! {

/// What a query of packet events reads of an IBC event.
pub enum IbcEventKind {
    CreateClient,
    UpdateClient,
    /// A packet was received: it went from `port_id_on_a`/`chan_id_on_a` to
    /// `port_id_on_b`/`chan_id_on_b` with the sequence `seq_on_b`.
    ReceivePacket {
        port_id_on_a: String,
        chan_id_on_a: String,
        port_id_on_b: String,
        chan_id_on_b: String,
        seq_on_b: u64,
    },
    /// An acknowledgement was written for the packet of sequence `seq_on_a`.
    WriteAcknowledgement {
        port_id_on_a: String,
        chan_id_on_a: String,
        port_id_on_b: String,
        chan_id_on_b: String,
        seq_on_a: u64,
    },
    Other,
}

/// An IBC event as the history keeps it: its type, what queries read of it, and
/// its encoding.
pub struct IbcEventRecord {
    pub event_type: String,
    pub kind: IbcEventKind,
    pub encoded: String,
}

impl IbcEventKind {
    /// A copy of the kind.
    pub fn copied(&self) -> (r: Self)
        ensures
            r == *self,
    {
        match self {
            IbcEventKind::CreateClient => IbcEventKind::CreateClient,
            IbcEventKind::UpdateClient => IbcEventKind::UpdateClient,
            IbcEventKind::ReceivePacket { port_id_on_a, chan_id_on_a, port_id_on_b, chan_id_on_b, seq_on_b } => IbcEventKind::ReceivePacket {
                port_id_on_a: port_id_on_a.clone(),
                chan_id_on_a: chan_id_on_a.clone(),
                port_id_on_b: port_id_on_b.clone(),
                chan_id_on_b: chan_id_on_b.clone(),
                seq_on_b: *seq_on_b,
            },
            IbcEventKind::WriteAcknowledgement { port_id_on_a, chan_id_on_a, port_id_on_b, chan_id_on_b, seq_on_a } => IbcEventKind::WriteAcknowledgement {
                port_id_on_a: port_id_on_a.clone(),
                chan_id_on_a: chan_id_on_a.clone(),
                port_id_on_b: port_id_on_b.clone(),
                chan_id_on_b: chan_id_on_b.clone(),
                seq_on_a: *seq_on_a,
            },
            IbcEventKind::Other => IbcEventKind::Other,
        }
    }
}

impl IbcEventRecord {
    /// A copy of the record.
    pub fn copied(&self) -> (r: Self)
        ensures
            r == *self,
    {
        IbcEventRecord { event_type: self.event_type.clone(), kind: self.kind.copied(), encoded: self.encoded.clone() }
    }
}

/// The height that a query names: the latest one in the history, or a given one.
pub enum QueryHeight {
    Latest,
    Specific(NearHeight),
}

/// A query of the events of the packets between two channels.
pub struct QueryPacketEventDataRequest {
    pub event_type: String,
    pub source_channel_id: String,
    pub source_port_id: String,
    pub destination_channel_id: String,
    pub destination_port_id: String,
    pub sequences: Vec<u64>,
    pub height: Qualified<QueryHeight>,
}

/// The event answers the query: it has the asked type and, for a packet event,
/// belongs to the asked channels and one of the asked sequences.
pub open spec fn event_matches(req: QueryPacketEventDataRequest, e: IbcEventRecord) -> bool {
    &&& req.event_type@ == e.event_type@
    &&& match e.kind {
        IbcEventKind::CreateClient => true,
        IbcEventKind::UpdateClient => true,
        IbcEventKind::ReceivePacket { port_id_on_a, chan_id_on_a, port_id_on_b, chan_id_on_b, seq_on_b } => {
            &&& req.source_port_id@ == port_id_on_b@
            &&& req.source_channel_id@ == chan_id_on_b@
            &&& req.destination_port_id@ == port_id_on_a@
            &&& req.destination_channel_id@ == chan_id_on_a@
            &&& req.sequences@.contains(seq_on_b)
        },
        IbcEventKind::WriteAcknowledgement { port_id_on_a, chan_id_on_a, port_id_on_b, chan_id_on_b, seq_on_a } => {
            &&& req.source_port_id@ == port_id_on_a@
            &&& req.source_channel_id@ == chan_id_on_a@
            &&& req.destination_port_id@ == port_id_on_b@
            &&& req.destination_channel_id@ == chan_id_on_b@
            &&& req.sequences@.contains(seq_on_a)
        },
        IbcEventKind::Other => false,
    }
}

/// The events of `evs` that answer the query, in their order.
pub open spec fn matching_events(req: QueryPacketEventDataRequest, evs: Seq<IbcEventRecord>) -> Seq<IbcEventRecord> {
    evs.filter(|e: IbcEventRecord| event_matches(req, e))
}

fn contains_sequence(sequences: &Vec<u64>, s: u64) -> (r: bool)
    ensures
        r == sequences@.contains(s),
{
    let mut i: usize = 0;
    while i < sequences.len()
        invariant
            i <= sequences.len(),
            forall|j: int| 0 <= j < i ==> sequences@[j] != s,
        decreases sequences.len() - i,
    {
        if sequences[i] == s {
            return true;
        }
        i = i + 1;
    }
    false
}

/// Whether the event answers the query.
pub fn is_matching_event(req: &QueryPacketEventDataRequest, e: &IbcEventRecord) -> (r: bool)
    ensures
        r == event_matches(*req, *e),
        e.kind matches IbcEventKind::WriteAcknowledgement { port_id_on_a, chan_id_on_a, port_id_on_b, chan_id_on_b, seq_on_a }
            ==> (r <==> req.event_type@ == e.event_type@
                && req.source_port_id@ == port_id_on_a@ && req.source_channel_id@ == chan_id_on_a@
                && req.destination_port_id@ == port_id_on_b@ && req.destination_channel_id@ == chan_id_on_b@
                && req.sequences@.contains(seq_on_a)),
        e.kind matches IbcEventKind::ReceivePacket { port_id_on_a, chan_id_on_a, port_id_on_b, chan_id_on_b, seq_on_b }
            ==> (r <==> req.event_type@ == e.event_type@
                && req.source_port_id@ == port_id_on_b@ && req.source_channel_id@ == chan_id_on_b@
                && req.destination_port_id@ == port_id_on_a@ && req.destination_channel_id@ == chan_id_on_a@
                && req.sequences@.contains(seq_on_b)),
{
    if !same_text(req.event_type.as_str(), e.event_type.as_str()) {
        return false;
    }
    match &e.kind {
        IbcEventKind::CreateClient => true,
        IbcEventKind::UpdateClient => true,
        IbcEventKind::ReceivePacket { port_id_on_a, chan_id_on_a, port_id_on_b, chan_id_on_b, seq_on_b } => {
            same_text(req.source_port_id.as_str(), port_id_on_b.as_str())
                && same_text(req.source_channel_id.as_str(), chan_id_on_b.as_str())
                && same_text(req.destination_port_id.as_str(), port_id_on_a.as_str())
                && same_text(req.destination_channel_id.as_str(), chan_id_on_a.as_str())
                && contains_sequence(&req.sequences, *seq_on_b)
        },
        IbcEventKind::WriteAcknowledgement { port_id_on_a, chan_id_on_a, port_id_on_b, chan_id_on_b, seq_on_a } => {
            same_text(req.source_port_id.as_str(), port_id_on_a.as_str())
                && same_text(req.source_channel_id.as_str(), chan_id_on_a.as_str())
                && same_text(req.destination_port_id.as_str(), port_id_on_b.as_str())
                && same_text(req.destination_channel_id.as_str(), chan_id_on_b.as_str())
                && contains_sequence(&req.sequences, *seq_on_a)
        },
        IbcEventKind::Other => false,
    }
}

/// Appends to `result` the height with those of `ibc_events` that answer the query.
pub fn gather_ibc_events_with_height(
    result: &mut Vec<(NearHeight, Vec<IbcEventRecord>)>,
    height: NearHeight,
    ibc_events: &Vec<IbcEventRecord>,
    request: &QueryPacketEventDataRequest,
)
    ensures
        final(result)@.len() == old(result)@.len() + 1,
        forall|i: int| 0 <= i < old(result)@.len() ==> #[trigger] final(result)@[i] == old(result)@[i],
        final(result)@.last().0 == height,
        final(result)@.last().1@ == matching_events(*request, ibc_events@),
{
    let mut events: Vec<IbcEventRecord> = Vec::new();
    let mut i: usize = 0;
    while i < ibc_events.len()
        invariant
            i <= ibc_events.len(),
            events@ == matching_events(*request, ibc_events@.subrange(0, i as int)),
        decreases ibc_events.len() - i,
    {
        proof {
            reveal(Seq::filter);
            assert(ibc_events@.subrange(0, i as int + 1).drop_last() =~= ibc_events@.subrange(0, i as int));
        }
        if is_matching_event(request, &ibc_events[i]) {
            events.push(ibc_events[i].copied());
        }
        i = i + 1;
    }
    proof {
        assert(ibc_events@.subrange(0, ibc_events@.len() as int) =~= ibc_events@);
    }
    result.push((height, events));
}

/// A write-acknowledgement event answers a query exactly when it has the asked
/// type, the query's source is the event's side `a` (the packet's sender, where
/// the acknowledgement is relayed to), its destination is side `b`, and the
/// packet's sequence `seq_on_a` is among the asked ones.
pub proof fn law_write_acknowledgement_answers_from_side_a(
    req: QueryPacketEventDataRequest,
    e: IbcEventRecord,
    port_id_on_a: String,
    chan_id_on_a: String,
    port_id_on_b: String,
    chan_id_on_b: String,
    seq_on_a: u64,
)
    requires
        e.kind == (IbcEventKind::WriteAcknowledgement { port_id_on_a, chan_id_on_a, port_id_on_b, chan_id_on_b, seq_on_a }),
    ensures
        event_matches(req, e) <==> {
            &&& req.event_type@ == e.event_type@
            &&& req.source_port_id@ == port_id_on_a@
            &&& req.source_channel_id@ == chan_id_on_a@
            &&& req.destination_port_id@ == port_id_on_b@
            &&& req.destination_channel_id@ == chan_id_on_b@
            &&& req.sequences@.contains(seq_on_a)
        },
{
}

/// A receive-packet event answers a query exactly when it has the asked type,
/// the query's source is the event's side `b` (the receiving chain), its
/// destination is side `a`, and the packet's sequence `seq_on_b` is among the
/// asked ones.
pub proof fn law_receive_packet_answers_from_side_b(
    req: QueryPacketEventDataRequest,
    e: IbcEventRecord,
    port_id_on_a: String,
    chan_id_on_a: String,
    port_id_on_b: String,
    chan_id_on_b: String,
    seq_on_b: u64,
)
    requires
        e.kind == (IbcEventKind::ReceivePacket { port_id_on_a, chan_id_on_a, port_id_on_b, chan_id_on_b, seq_on_b }),
    ensures
        event_matches(req, e) <==> {
            &&& req.event_type@ == e.event_type@
            &&& req.source_port_id@ == port_id_on_b@
            &&& req.source_channel_id@ == chan_id_on_b@
            &&& req.destination_port_id@ == port_id_on_a@
            &&& req.destination_channel_id@ == chan_id_on_a@
            &&& req.sequences@.contains(seq_on_b)
        },
{
}

/// A client event answers every query of its type, and no other event that is
/// not a packet event answers any query.
pub proof fn law_client_and_other_events(req: QueryPacketEventDataRequest, e: IbcEventRecord)
    ensures
        (e.kind is CreateClient || e.kind is UpdateClient) ==> (event_matches(req, e) <==> req.event_type@ == e.event_type@),
        e.kind is Other ==> !event_matches(req, e),
{
}

} // verus!
