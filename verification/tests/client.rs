use heimdallr::address::{IpAddress, SocketAddress};
use heimdallr::client::{Announcement, ClientOptions, HeimdallrClient};
use heimdallr::networking::{
    BarrierPkt, BarrierReplyPkt, ClientOperationPkt, ClientRegistrationReplyPkt, FinalizePkt,
    MutexCreationReplyPkt,
};

fn listener(rank: u32) -> SocketAddress {
    SocketAddress::new(IpAddress::V4(0x0a00_0000 + rank), 30000 + rank as u16)
}

fn transfer(port: u16) -> SocketAddress {
    SocketAddress::new(IpAddress::V4(0x0a00_00ff), port)
}

fn client(id: u32, size: u32) -> HeimdallrClient {
    let count = size.to_string();
    let args: Vec<String> = ["solver", "-p", "p", "-n", "n", "-j", count.as_str(), "--args", "a", "b"]
        .iter()
        .map(|s| s.to_string())
        .collect();
    let options = ClientOptions::parse(&args).unwrap();
    let listeners: Vec<SocketAddress> = (0..size).map(listener).collect();
    let reply = ClientRegistrationReplyPkt::receive(ClientRegistrationReplyPkt::new(id, &listeners));
    HeimdallrClient::init(options, reply.unwrap())
}

#[test]
fn client_takes_rank_and_listeners_from_the_reply() {
    let c = client(2, 3);
    assert_eq!(c.job, "solver");
    assert_eq!(c.size, 3);
    assert_eq!(c.id, 2);
    assert_eq!(c.client_listeners, vec![listener(0), listener(1), listener(2)]);
    assert_eq!(c.cmd_args, vec!["a".to_string(), "b".to_string()]);
    assert_eq!(c.readers.len(), 0);
}

#[test]
fn only_a_registration_reply_carries_rank_and_listeners() {
    assert_eq!(ClientRegistrationReplyPkt::receive(BarrierReplyPkt::new(1)), None);
    assert_eq!(ClientRegistrationReplyPkt::receive(MutexCreationReplyPkt::new("m")), None);
    assert_eq!(
        ClientRegistrationReplyPkt::receive(ClientRegistrationReplyPkt::new(1, &vec![listener(0)])),
        Some(ClientRegistrationReplyPkt { id: 1, client_listeners: vec![listener(0)] })
    );
}

#[test]
fn send_announces_to_the_peer_listener_of_the_destination() {
    let c = client(1, 3);
    assert_eq!(
        c.send(2, 7, transfer(4000)),
        Announcement {
            to: listener(2),
            pkt: ClientOperationPkt { client_id: 1, op_id: 7, addr: transfer(4000) },
        }
    );
    assert_eq!(c.send_slice(0, 8, transfer(4001)), c.send(0, 8, transfer(4001)));
    assert_eq!(c.send_slice(0, 8, transfer(4001)).to, listener(0));
}

#[test]
fn send_reaches_the_first_and_the_last_rank() {
    let c = client(0, 3);
    assert_eq!(c.send(0, 1, transfer(1)).to, listener(0));
    assert_eq!(c.send(2, 1, transfer(1)).to, listener(2));
    assert_eq!(c.send(2, 1, transfer(1)).pkt, ClientOperationPkt::new(0, 1, transfer(1)));
}

#[test]
fn receive_waits_for_the_matching_announcement() {
    let mut receiver = client(0, 3);
    assert_eq!(receiver.receive(1, 0), None);
    assert_eq!(receiver.listener_handler(ClientOperationPkt::new(1, 0, transfer(5))), None);
    assert_eq!(receiver.receive(2, 0), None);
    assert_eq!(receiver.receive(1, 1), None);
    assert_eq!(receiver.receive(1, 0), Some(transfer(5)));
    assert_eq!(receiver.receive(1, 0), None);
    assert_eq!(receiver.id, 0);
    assert_eq!(receiver.client_listeners.len(), 3);
}

#[test]
fn announcement_may_come_before_or_after_the_first_poll() {
    let mut early = client(0, 2);
    early.listener_handler(ClientOperationPkt::new(1, 3, transfer(9)));
    assert_eq!(early.receive(1, 3), Some(transfer(9)));

    let mut late = client(0, 2);
    assert_eq!(late.receive(1, 3), None);
    assert_eq!(late.receive(1, 3), None);
    late.listener_handler(ClientOperationPkt::new(1, 3, transfer(9)));
    assert_eq!(late.receive(1, 3), Some(transfer(9)));
}

#[test]
fn second_announcement_under_the_same_key_displaces_the_first() {
    let mut receiver = client(0, 2);
    assert_eq!(receiver.listener_handler(ClientOperationPkt::new(1, 0, transfer(5))), None);
    assert_eq!(
        receiver.listener_handler(ClientOperationPkt::new(1, 0, transfer(6))),
        Some(transfer(5))
    );
    assert_eq!(receiver.receive(1, 0), Some(transfer(6)));
    assert_eq!(receiver.receive(1, 0), None);
}

#[test]
fn receive_any_source_matches_the_tag_only() {
    let mut receiver = client(0, 4);
    assert_eq!(receiver.receive_any_source(2), None);
    receiver.listener_handler(ClientOperationPkt::new(3, 1, transfer(31)));
    receiver.listener_handler(ClientOperationPkt::new(2, 2, transfer(22)));
    receiver.listener_handler(ClientOperationPkt::new(1, 2, transfer(12)));
    assert_eq!(receiver.receive_any_source(5), None);
    let mut tagged = vec![
        receiver.receive_any_source(2).unwrap(),
        receiver.receive_any_source(2).unwrap(),
    ];
    tagged.sort_by_key(|(sender, _)| *sender);
    assert_eq!(tagged, vec![(1, transfer(12)), (2, transfer(22))]);
    assert_eq!(receiver.receive_any_source(2), None);
    assert_eq!(receiver.receive_any_source(1), Some((3, transfer(31))));
    assert_eq!(receiver.readers.len(), 0);
}

#[test]
fn barrier_and_finalize_requests_carry_rank_size_and_job() {
    let c = client(1, 4);
    assert_eq!(c.barrier(), BarrierPkt::new(1, 4, "solver"));
    assert_eq!(c.finalize(), FinalizePkt::new(1, 4, "solver"));
}

#[test]
fn announcement_that_is_never_received_stays_in_the_table() {
    let mut receiver = client(0, 3);
    receiver.listener_handler(ClientOperationPkt::new(2, 9, transfer(1)));
    for _ in 0..3 {
        assert_eq!(receiver.receive(1, 9), None);
        assert_eq!(receiver.receive_any_source(8), None);
    }
    assert_eq!(receiver.readers.len(), 1);
    assert!(receiver.readers.contains(2, 9));
}
