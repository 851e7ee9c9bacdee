use near_ibc::ibc_store::{NearIbcStore, PortChannel, MAX_STATE_HISTORY_SIZE};
use near_ibc::ordering::NearHeight;
use near_ibc::packet_events::{IbcEventKind, IbcEventRecord, QueryHeight, QueryPacketEventDataRequest};
use near_ibc::types::{ProcessingResult, Qualified};

fn h(n: u64) -> NearHeight {
    NearHeight::new(0, n)
}

fn client() -> String {
    "07-tendermint-0".to_string()
}

fn pc() -> PortChannel {
    PortChannel { port_id: "transfer".to_string(), channel_id: "channel-0".to_string() }
}

fn sorted(mut v: Vec<NearHeight>) -> Vec<NearHeight> {
    v.sort();
    v
}

#[test]
fn consensus_history_keeps_fifty_latest() {
    let mut s = NearIbcStore::new();
    for n in 1..=(MAX_STATE_HISTORY_SIZE as u64) {
        assert_eq!(s.store_consensus_state(client(), h(n)), None);
    }
    assert_eq!(s.store_consensus_state(client(), h(100)), Some(h(1)));
    assert_eq!(s.store_consensus_state(client(), h(3)), None);
    let heights = s.get_client_consensus_heights(&client());
    assert_eq!(heights.len(), MAX_STATE_HISTORY_SIZE);
    assert!(!heights.contains(&h(1)));
    assert!(heights.contains(&h(100)));
}

#[test]
fn test_clear_consensus_state_by_lower_heights_then_all() {
    let mut s = NearIbcStore::new();
    for n in 1..=4u64 {
        s.store_consensus_state(client(), h(n));
    }
    assert_eq!(sorted(s.get_client_consensus_heights(&client())), vec![h(1), h(2), h(3), h(4)]);
    let (result, removed) = s.clear_consensus_state_by(&client(), Some(&h(3)), 100);
    assert!(matches!(result, ProcessingResult::Done));
    assert_eq!(removed, vec![h(1), h(2)]);
    assert_eq!(sorted(s.get_client_consensus_heights(&client())), vec![h(3), h(4)]);
    let (result, _) = s.clear_consensus_state_by(&client(), None, 100);
    assert!(matches!(result, ProcessingResult::Done));
    assert!(s.get_client_consensus_heights(&client()).is_empty());
}

#[test]
fn clear_consensus_state_by_respects_budget() {
    let mut s = NearIbcStore::new();
    for n in [5u64, 1, 4, 2, 3] {
        s.store_consensus_state(client(), h(n));
    }
    let (result, removed) = s.clear_consensus_state_by(&client(), None, 2);
    assert!(matches!(result, ProcessingResult::NeedMoreGas));
    assert_eq!(removed, vec![h(1), h(2)]);
    let (result, removed) = s.clear_consensus_state_by(&client(), None, 5);
    assert!(matches!(result, ProcessingResult::Done));
    assert_eq!(removed, vec![h(3), h(4), h(5)]);
}

#[test]
fn update_times_and_heights() {
    let mut s = NearIbcStore::new();
    s.store_update_time(client(), h(7), 7_000);
    s.store_update_height(client(), h(7), h(70));
    assert_eq!(s.client_update_time(&client(), &h(7)), Some(7_000));
    assert_eq!(s.client_update_height(&client(), &h(7)), Some(h(70)));
    s.delete_update_time(&client(), &h(7));
    s.delete_update_height(&client(), &h(7));
    assert_eq!(s.client_update_time(&client(), &h(7)), None);
    assert_eq!(s.client_update_height(&client(), &h(7)), None);
    for n in 1..=51u64 {
        s.store_update_time(client(), h(n), n);
    }
    assert_eq!(s.client_update_time(&client(), &h(1)), None);
    assert_eq!(s.client_update_time(&client(), &h(51)), Some(51));
}

#[test]
fn remove_client_forgets_everything() {
    let mut s = NearIbcStore::new();
    s.store_client_state(client());
    s.store_consensus_state(client(), h(1));
    s.store_consensus_state(client(), h(2));
    s.store_update_time(client(), h(1), 1);
    let mut removed = s.remove_client(&client());
    removed.sort();
    assert_eq!(removed, vec![h(1), h(2)]);
    assert_eq!(s.consensus_state_heights(&client()), None);
    assert_eq!(s.client_update_time(&client(), &h(1)), None);
}

#[test]
fn channel_sequences_and_removal() {
    let mut s = NearIbcStore::new();
    s.store_channel(pc());
    s.store_packet_commitment(pc(), 1);
    s.store_packet_commitment(pc(), 2);
    s.store_packet_receipt(pc(), 5);
    s.store_packet_acknowledgement(pc(), 9);
    s.delete_packet_commitment(&pc(), 1);
    assert_eq!(s.get_packet_commitment_sequences(&pc()), vec![2]);
    assert_eq!(s.get_packet_acknowledgement_sequences(&pc()), vec![9]);
    assert_eq!(s.get_unreceipt_packet(&pc(), &vec![4, 5, 6]), vec![4, 6]);
    let (commitments, receipts, acks) = s.remove_channel(&pc());
    assert_eq!(commitments, vec![2]);
    assert_eq!(receipts, vec![5]);
    assert_eq!(acks, vec![9]);
    s.delete_packet_acknowledgement(&pc(), 9);
    assert!(s.get_packet_acknowledgement_sequences(&pc()).is_empty());
}

#[test]
fn counters() {
    let mut s = NearIbcStore::new();
    s.increase_client_counter();
    s.increase_client_counter();
    s.increase_connection_counter();
    s.increase_channel_counter();
    assert_eq!(s.client_counter(), 2);
    assert_eq!(s.connection_counter(), 1);
    assert_eq!(s.channel_counter(), 1);
    s.clear_counters();
    assert_eq!(s.client_counter(), 0);
    s.store_connection("connection-0".to_string());
    s.remove_connection(&"connection-0".to_string());
}

fn recv(seq: u64) -> IbcEventRecord {
    IbcEventRecord {
        event_type: "recv_packet".to_string(),
        kind: IbcEventKind::ReceivePacket {
            port_id_on_a: "transfer".to_string(),
            chan_id_on_a: "channel-7".to_string(),
            port_id_on_b: "transfer".to_string(),
            chan_id_on_b: "channel-0".to_string(),
            seq_on_b: seq,
        },
        encoded: format!("recv-{}", seq),
    }
}

fn request(height: Qualified<QueryHeight>, sequences: Vec<u64>) -> QueryPacketEventDataRequest {
    QueryPacketEventDataRequest {
        event_type: "recv_packet".to_string(),
        source_channel_id: "channel-0".to_string(),
        source_port_id: "transfer".to_string(),
        destination_channel_id: "channel-7".to_string(),
        destination_port_id: "transfer".to_string(),
        sequences,
        height,
    }
}

#[test]
fn events_history_and_packet_queries() {
    let mut s = NearIbcStore::new();
    s.emit_ibc_event(h(10), recv(1));
    s.emit_ibc_event(h(10), recv(2));
    s.emit_ibc_event(h(12), recv(3));
    s.emit_ibc_event(h(15), IbcEventRecord { event_type: "other".to_string(), kind: IbcEventKind::Other, encoded: String::new() });
    assert_eq!(s.get_ibc_events_heights(), vec![h(10), h(12), h(15)]);
    let at_10 = s.get_ibc_events_at(&h(10));
    assert_eq!(at_10.len(), 2);
    assert_eq!(at_10[1].encoded, "recv-2".to_string());

    let r = s.get_packet_events(&request(Qualified::SmallerEqual(QueryHeight::Specific(h(12))), vec![2, 3]));
    assert_eq!(r.len(), 2);
    assert_eq!(r[0].0, h(10));
    assert_eq!(r[0].1.len(), 1);
    assert_eq!(r[0].1[0].encoded, "recv-2".to_string());
    assert_eq!(r[1].0, h(12));
    assert_eq!(r[1].1[0].encoded, "recv-3".to_string());

    let r = s.get_packet_events(&request(Qualified::Equal(QueryHeight::Latest), vec![1]));
    assert_eq!(r.len(), 1);
    assert_eq!(r[0].0, h(15));
    assert!(r[0].1.is_empty());

    let r = s.get_packet_events(&request(Qualified::Equal(QueryHeight::Specific(h(10))), vec![1]));
    assert_eq!(r[0].1.len(), 1);
    assert_eq!(r[0].1[0].encoded, "recv-1".to_string());

    assert!(matches!(s.set_max_length_of_ibc_events_history(1), ProcessingResult::Done));
    assert_eq!(s.get_ibc_events_heights(), vec![h(15)]);
    assert!(matches!(s.clear_ibc_events_history(), ProcessingResult::Done));
    assert!(s.get_ibc_events_heights().is_empty());
    let r = s.get_packet_events(&request(Qualified::SmallerEqual(QueryHeight::Latest), vec![1]));
    assert!(r.is_empty());
}

#[test]
fn clear_connections_oldest_first_within_budget() {
    let mut s = NearIbcStore::new();
    s.store_connection("connection-0".to_string());
    s.store_connection("connection-1".to_string());
    s.store_connection("connection-2".to_string());
    let (result, removed) = s.clear_connections(2);
    assert!(matches!(result, ProcessingResult::NeedMoreGas));
    assert_eq!(removed, vec!["connection-0".to_string(), "connection-1".to_string()]);
    let (result, removed) = s.clear_connections(0);
    assert!(matches!(result, ProcessingResult::NeedMoreGas));
    assert_eq!(removed, vec!["connection-2".to_string()]);
    let (result, removed) = s.clear_connections(5);
    assert!(matches!(result, ProcessingResult::Done));
    assert!(removed.is_empty());
}

#[test]
fn clear_clients_removes_their_consensus_states() {
    let mut s = NearIbcStore::new();
    s.store_client_state("client-a".to_string());
    s.store_client_state("client-b".to_string());
    s.store_consensus_state("client-a".to_string(), h(3));
    s.store_consensus_state("client-b".to_string(), h(4));
    s.store_update_time("client-a".to_string(), h(3), 30);
    let (result, removed) = s.clear_clients(10);
    assert!(matches!(result, ProcessingResult::Done));
    assert_eq!(removed.len(), 2);
    assert_eq!(removed[0].0, "client-a".to_string());
    assert_eq!(removed[0].1, vec![h(3)]);
    assert_eq!(removed[1].0, "client-b".to_string());
    assert_eq!(removed[1].1, vec![h(4)]);
    assert_eq!(s.consensus_state_heights(&"client-a".to_string()), None);
    assert_eq!(s.client_update_time(&"client-a".to_string(), &h(3)), None);
}

#[test]
fn clear_channels_returns_their_sequences() {
    let mut s = NearIbcStore::new();
    let other = PortChannel { port_id: "transfer".to_string(), channel_id: "channel-1".to_string() };
    s.store_channel(pc());
    s.store_channel(other);
    s.store_packet_commitment(pc(), 7);
    s.store_packet_receipt(pc(), 8);
    let (result, removed) = s.clear_channels(1);
    assert!(matches!(result, ProcessingResult::NeedMoreGas));
    assert_eq!(removed.len(), 1);
    assert_eq!(removed[0].0.channel_id, "channel-0".to_string());
    assert_eq!((removed[0].1).0, vec![7]);
    assert_eq!((removed[0].1).1, vec![8]);
    assert!((removed[0].1).2.is_empty());
    let (result, removed) = s.clear_channels(1);
    assert!(matches!(result, ProcessingResult::NeedMoreGas));
    assert_eq!(removed[0].0.channel_id, "channel-1".to_string());
    let (result, removed) = s.clear_channels(1);
    assert!(matches!(result, ProcessingResult::Done));
    assert!(removed.is_empty());
}

#[test]
fn remove_raw_client_forgets_heights() {
    let mut s = NearIbcStore::new();
    s.store_client_state(client());
    s.store_consensus_state(client(), h(1));
    s.store_update_height(client(), h(1), h(9));
    s.remove_raw_client(&client());
    assert_eq!(s.consensus_state_heights(&client()), None);
    assert_eq!(s.client_update_height(&client(), &h(1)), None);
}

#[test]
fn client_connections_are_kept_in_order() {
    let mut s = NearIbcStore::new();
    s.store_client_state(client());
    assert!(s.get_client_connections(&client()).is_empty());
    s.store_connection_to_client(client(), "connection-0".to_string());
    s.store_connection_to_client(client(), "connection-1".to_string());
    assert_eq!(s.get_client_connections(&client()), vec!["connection-0".to_string(), "connection-1".to_string()]);
    s.remove_raw_client(&client());
    assert_eq!(s.get_client_connections(&client()).len(), 2);
    s.store_client_state(client());
    s.remove_client(&client());
    assert!(s.get_client_connections(&client()).is_empty());
}
