use heimdallr::address::{IpAddress, SocketAddress};
use heimdallr::networking::ClientOperationPkt;
use heimdallr::pending::PendingTable;

fn addr(port: u16) -> SocketAddress {
    SocketAddress::new(IpAddress::V4(0x7f00_0001), port)
}

#[test]
fn insert_then_take_returns_the_address() {
    let mut table = PendingTable::new();
    assert_eq!(table.insert(1, 0, addr(4000)), None);
    assert_eq!(table.len(), 1);
    assert!(table.contains(1, 0));
    assert_eq!(table.take(1, 0), Some(addr(4000)));
    assert_eq!(table.len(), 0);
    assert_eq!(table.take(1, 0), None);
}

#[test]
fn take_matches_sender_and_tag_exactly() {
    let mut table = PendingTable::new();
    table.insert(1, 0, addr(4000));
    table.insert(2, 0, addr(4001));
    table.insert(1, 1, addr(4002));
    assert_eq!(table.take(2, 1), None);
    assert_eq!(table.take(1, 1), Some(addr(4002)));
    assert_eq!(table.take(2, 0), Some(addr(4001)));
    assert_eq!(table.take(1, 0), Some(addr(4000)));
}

#[test]
fn duplicate_announcement_replaces_and_reports() {
    let mut table = PendingTable::new();
    assert_eq!(table.announce(ClientOperationPkt::new(3, 7, addr(1))), None);
    assert_eq!(table.announce(ClientOperationPkt::new(3, 7, addr(2))), Some(addr(1)));
    assert_eq!(table.len(), 1);
    assert_eq!(table.take(3, 7), Some(addr(2)));
}

#[test]
fn take_any_matches_the_tag_only() {
    let mut table = PendingTable::new();
    table.insert(5, 9, addr(10));
    table.insert(2, 4, addr(11));
    table.insert(1, 4, addr(12));

    let first = table.take_any(4).unwrap();
    let second = table.take_any(4).unwrap();
    let mut both = vec![first, second];
    both.sort_by_key(|(sender, _)| *sender);
    assert_eq!(both, vec![(1, addr(12)), (2, addr(11))]);

    assert_eq!(table.take_any(4), None);
    assert_eq!(table.len(), 1);
    assert_eq!(table.take_any(9), Some((5, addr(10))));
    assert_eq!(table.take_any(9), None);
    assert_eq!(table.len(), 0);
}

#[test]
fn take_any_with_one_sender_under_the_tag_takes_that_sender() {
    let mut table = PendingTable::new();
    table.insert(7, 1, addr(1));
    table.insert(7, 2, addr(2));
    table.insert(8, 3, addr(3));
    assert_eq!(table.take_any(2), Some((7, addr(2))));
    assert!(table.contains(7, 1));
    assert!(table.contains(8, 3));
    assert!(!table.contains(7, 2));
}

#[test]
fn replaced_announcement_is_kept_once() {
    let mut table = PendingTable::new();
    table.insert(1, 4, addr(1));
    table.insert(2, 5, addr(2));
    assert_eq!(table.insert(1, 4, addr(3)), Some(addr(1)));
    assert_eq!(table.len(), 2);
    assert_eq!(table.take_any(4), Some((1, addr(3))));
    assert_eq!(table.take_any(4), None);
}

#[test]
fn taking_one_leaves_the_others() {
    let mut table = PendingTable::new();
    table.insert(1, 0, addr(1));
    table.insert(2, 0, addr(2));
    table.insert(3, 0, addr(3));
    assert_eq!(table.take(2, 0), Some(addr(2)));
    assert!(!table.contains(2, 0));
    assert!(table.contains(1, 0));
    assert!(table.contains(3, 0));
    assert_eq!(table.len(), 2);
}

#[test]
fn senders_and_tags_at_the_ends_of_their_range_are_kept_apart() {
    let mut table = PendingTable::new();
    table.insert(0, u32::MAX, addr(1));
    table.insert(u32::MAX, 0, addr(2));
    table.insert(1, 0, addr(3));
    table.insert(0, 1, addr(4));
    table.insert(u32::MAX, u32::MAX, addr(5));
    assert_eq!(table.len(), 5);
    assert_eq!(table.take(u32::MAX, 0), Some(addr(2)));
    assert_eq!(table.take(0, u32::MAX), Some(addr(1)));
    assert_eq!(table.take_any(1), Some((0, addr(4))));
    assert_eq!(table.take_any(u32::MAX), Some((u32::MAX, addr(5))));
    assert_eq!(table.take(1, 0), Some(addr(3)));
    assert_eq!(table.len(), 0);
}
