use near_ibc::link_map::KeySortLinkMap;

#[test]
fn test() {
    let mut map: KeySortLinkMap<u32, u32> = KeySortLinkMap::new();
    map.insert_from_tail(&1, &2);
    map.insert_from_tail(&3, &2);
    map.insert_from_tail(&2, &2);
    let mut head = map.head();
    let mut walked: Vec<u32> = Vec::new();
    while head.is_some() {
        let k = head.unwrap();
        let link = map.link_of(&k).unwrap();
        let value = map.get(&k).unwrap();
        println!("{:?} {:?}", link, value);
        walked.push(k);
        head = link.next_k;
    }
    // Every key goes in as the new head.
    assert_eq!(walked, vec![2, 3, 1]);
}

#[test]
fn link_map_inserts_become_the_head() {
    let mut map: KeySortLinkMap<u32, u32> = KeySortLinkMap::new();
    assert_eq!(map.head(), None);
    map.insert_from_tail(&10, &100);
    map.insert_from_tail(&30, &300);
    map.insert_from_tail(&20, &200);
    assert_eq!(map.head(), Some(20));
    assert_eq!(map.tail(), None);
    assert_eq!(map.get(&20), Some(200));
    assert_eq!(map.get_pre(&20), None);
    assert_eq!(map.get_next(&20), Some(300));
    // An old head records itself as its predecessor.
    assert_eq!(map.get_pre(&30), Some(300));
    assert_eq!(map.get_next(&30), Some(100));
    assert_eq!(map.get_pre(&10), Some(100));
    assert_eq!(map.get_next(&10), None);
    assert_eq!(map.get(&7), None);
    assert!(map.link_of(&7).is_none());
}

#[test]
fn link_map_insert_existing_key_updates_value() {
    let mut map: KeySortLinkMap<u32, u32> = KeySortLinkMap::new();
    map.insert_from_tail(&1, &1);
    map.insert_from_tail(&2, &2);
    map.insert_from_tail(&1, &9);
    assert_eq!(map.get(&1), Some(9));
    assert_eq!(map.head(), Some(1));
    assert_eq!(map.get_next(&1), Some(2));
    assert_eq!(map.get_pre(&2), Some(2));
    assert_eq!(map.get_pre(&1), None);
}
