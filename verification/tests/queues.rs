use near_ibc::ascending_queues::{IndexedAscendingLookupQueue, IndexedAscendingSimpleQueue, IndexedOrderedQueue};
use near_ibc::indexed_lookup_queue::IndexedLookupQueue;
use near_ibc::ordering::NearHeight;
use near_ibc::queue_viewer::IndexedAscendingQueueViewer;
use near_ibc::types::ProcessingResult;

fn queue_of(max: u64, keys: &[u64]) -> IndexedLookupQueue<u64, u64> {
    let mut q: IndexedLookupQueue<u64, u64> = IndexedLookupQueue::new(max);
    for k in keys {
        q.push_back((*k, *k * 10));
    }
    q
}

#[test]
fn lookup_queue_starts_empty() {
    let q: IndexedLookupQueue<u64, u64> = IndexedLookupQueue::new(5);
    assert_eq!(q.start_index(), 0);
    assert_eq!(q.end_index(), 0);
    assert_eq!(q.max_length(), 5);
    assert_eq!(q.len(), 0);
    assert!(q.is_empty());
    assert_eq!(q.get_key(&0), None);
}

#[test]
fn lookup_queue_push_then_read_back() {
    let q = queue_of(5, &[3, 7, 9]);
    assert_eq!(q.start_index(), 1);
    assert_eq!(q.end_index(), 3);
    assert_eq!(q.len(), 3);
    assert_eq!(q.get_key(&2), Some(7));
    assert_eq!(q.get_value_by_key(&9), Some(90));
    assert_eq!(q.get_value_by_index(&1), Some(30));
    assert_eq!(q.keys(), vec![Some(3), Some(7), Some(9)]);
    assert_eq!(q.values(), vec![Some(30), Some(70), Some(90)]);
    assert!(q.contains_key(&7));
    assert!(!q.contains_key(&8));
}

#[test]
fn lookup_queue_drops_oldest_when_full() {
    let q = queue_of(2, &[1, 2, 3]);
    assert_eq!(q.start_index(), 2);
    assert_eq!(q.end_index(), 3);
    assert_eq!(q.len(), 2);
    assert_eq!(q.get_value_by_key(&1), None);
    assert_eq!(q.get_value_by_key(&3), Some(30));
}

#[test]
fn lookup_queue_pops_oldest_first() {
    let mut q = queue_of(5, &[4, 5]);
    q.push_back((6, 60));
    assert_eq!(q.pop_front(), Some((Some(4), Some(40))));
    assert_eq!(q.pop_front(), Some((Some(5), Some(50))));
    assert_eq!(q.pop_front(), Some((Some(6), Some(60))));
    assert_eq!(q.pop_front(), None);
    assert!(q.is_empty());
}

#[test]
fn lookup_queue_binary_search_and_neighbours() {
    let q = queue_of(10, &[10, 20, 30, 40]);
    assert_eq!(q.get_index_of_key(&30), Some(3));
    assert_eq!(q.get_index_of_key(&35), None);
    assert_eq!(q.get_previous_by_key(&30), Some(200));
    assert_eq!(q.get_next_by_key(&30), Some(400));
    assert_eq!(q.get_previous_by_key(&35), None);
    assert_eq!(q.get_next_by_key(&35), None);
    assert_eq!(q.get_previous_by_key(&10), None);
    assert_eq!(q.get_next_by_key(&40), None);
}

#[test]
fn lookup_queue_slices() {
    let q = queue_of(100, &[1, 2, 3, 4, 5]);
    assert_eq!(q.get_slice_of(&2, Some(2)), vec![(Some(2), Some(20)), (Some(3), Some(30))]);
    assert_eq!(q.get_slice_of(&0, Some(1)), vec![(Some(1), Some(10))]);
    assert_eq!(q.get_slice_of(&4, None), vec![(Some(4), Some(40)), (Some(5), Some(50))]);
}

#[test]
fn lookup_queue_set_max_length_trims_front() {
    let mut q = queue_of(10, &[1, 2, 3, 4]);
    q.set_max_length(2);
    assert_eq!(q.max_length(), 2);
    assert_eq!(q.start_index(), 3);
    assert_eq!(q.keys(), vec![Some(3), Some(4)]);
    assert_eq!(q.get_value_by_key(&2), None);
}

#[test]
fn lookup_queue_remove_by_key_keeps_index() {
    let mut q = queue_of(10, &[1, 2]);
    assert_eq!(q.remove_by_key(&1), Some(10));
    assert_eq!(q.get_key(&1), Some(1));
    assert_eq!(q.get_value_by_key(&1), None);
    assert_eq!(q.remove_by_key(&1), None);
}

#[test]
fn lookup_queue_clear_empties() {
    let mut q = queue_of(10, &[1, 2]);
    q.clear();
    assert_eq!(q.start_index(), 0);
    assert_eq!(q.end_index(), 0);
    assert!(q.is_empty());
    assert_eq!(q.get_value_by_key(&1), None);
}

#[test]
fn lookup_queue_with_zero_max_keeps_nothing() {
    let q = queue_of(0, &[1]);
    assert_eq!(q.get_value_by_key(&1), None);
    assert_eq!(q.len(), 0);
}

fn h(n: u64) -> NearHeight {
    NearHeight::new(0, n)
}

#[test]
fn ascending_lookup_queue_lookups() {
    let mut q: IndexedAscendingLookupQueue<NearHeight, u64> = IndexedAscendingLookupQueue::new(10);
    q.push_back((h(5), 50));
    q.push_back((h(8), 80));
    q.push_back((NearHeight::new(1, 1), 11));
    assert_eq!(q.first_key(), Some(&h(5)));
    assert_eq!(q.last_key(), Some(&NearHeight::new(1, 1)));
    assert_eq!(q.get_value_by_key(&h(8)), Some(&80));
    assert_eq!(q.get_previous_value_by_key(&h(9)), Some(&80));
    assert_eq!(q.get_next_value_by_key(&h(9)), Some(&11));
    assert_eq!(q.get_index_of_key(&h(8)), Some(2));
    assert_eq!(q.len(), 3);
    if let Some(v) = q.get_value_by_key_mut(&h(5)) {
        *v = 55;
    }
    assert_eq!(q.get_value_by_index(&1), Some(&55));
    assert_eq!(q.values(), vec![Some(&55), Some(&80), Some(&11)]);
}

#[test]
fn ascending_lookup_queue_pop_and_trim() {
    let mut q: IndexedAscendingLookupQueue<u64, u64> = IndexedAscendingLookupQueue::new(3);
    for k in 1..=4u64 {
        q.push_back((k, k + 100));
    }
    assert_eq!(q.start_index(), 2);
    assert_eq!(q.pop_front(), Some((Some(2), Some(102))));
    q.set_max_length(1);
    assert_eq!(q.keys(), vec![Some(&4)]);
    assert_eq!(q.remove_by_key(&4), Some(104));
    q.clear();
    assert!(q.is_empty());
}

#[test]
fn ascending_simple_queue_budgets() {
    let mut q: IndexedAscendingSimpleQueue<u64> = IndexedAscendingSimpleQueue::new(100);
    for k in 1..=6u64 {
        q.push_back(k);
    }
    assert!(matches!(q.set_max_length(3, 2), ProcessingResult::NeedMoreGas));
    assert_eq!(q.start_index(), 3);
    assert!(matches!(q.set_max_length(3, 2), ProcessingResult::Done));
    assert_eq!(q.start_index(), 4);
    assert_eq!(q.pop_front(), Some(4));
    assert!(matches!(q.clear(1), ProcessingResult::NeedMoreGas));
    assert!(matches!(q.clear(10), ProcessingResult::Done));
    assert!(q.is_empty());
    q.flush();
}

#[test]
fn ordered_queue_views() {
    let mut q: IndexedOrderedQueue<u64> = IndexedOrderedQueue::new(10);
    for k in [2u64, 4, 6, 8] {
        q.push_back(k);
    }
    assert_eq!(q.latest_key(), Some(&8));
    assert_eq!(q.len(), 4);
    assert_eq!(q.get_key(&2), Some(&4));
    assert_eq!(q.get_index_of_key(&6), Some(3));
    assert_eq!(q.get_previous_by_key(&6), Some(&4));
    assert_eq!(q.get_next_by_key(&6), Some(&8));
    assert_eq!(q.get_slice_of(&2, Some(2)), vec![Some(&4), Some(&6)]);
    assert_eq!(q.pop_front(), Some(2));
    q.set_max_length(2);
    assert_eq!(q.keys(), vec![Some(&6), Some(&8)]);
    q.clear();
    assert!(q.is_empty());
}

#[test]
fn simple_queue_keeps_keys_in_push_order() {
    let mut q: IndexedAscendingSimpleQueue<u64> = IndexedAscendingSimpleQueue::new(2);
    q.push_back(3);
    q.push_back(7);
    q.push_back(9);
    assert_eq!(q.keys(), vec![Some(&7), Some(&9)]);
    q.push_back(5);
    assert_eq!(q.keys(), vec![Some(&9), Some(&5)]);
}
