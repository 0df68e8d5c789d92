use heimdallr::address::{IpAddress, SocketAddress};
use heimdallr::networking::{
    BarrierPkt, BarrierReplyPkt, ClientOperationPkt, ClientRegistrationPkt,
    ClientRegistrationReplyPkt, DaemonPkt, DaemonPktType, DaemonReplyPkt, FinalizePkt,
    FinalizeReplyPkt, MutexCreationPkt, MutexCreationReplyPkt, MutexLockReqPkt,
    MutexWriteAndReleasePkt,
};

fn addr(port: u16) -> SocketAddress {
    SocketAddress::new(IpAddress::V4(0x0a00_0001), port)
}

#[test]
fn socket_address_keeps_ip_and_port() {
    let a = SocketAddress::new(IpAddress::V6(1), 4664);
    assert_eq!(a.ip, IpAddress::V6(1));
    assert_eq!(a.port, 4664);
    assert_eq!(IpAddress::unspecified(), IpAddress::V4(0));
}

#[test]
fn registration_packet_names_the_job_twice() {
    let pkt = ClientRegistrationPkt::new("solver", 4, addr(5000));
    assert_eq!(
        pkt,
        DaemonPkt {
            job: "solver".to_string(),
            pkt: DaemonPktType::ClientRegistration(ClientRegistrationPkt {
                job: "solver".to_string(),
                size: 4,
                listener_addr: addr(5000),
            }),
        }
    );
}

#[test]
fn mutex_packets_carry_their_fields() {
    assert_eq!(
        MutexCreationPkt::new("counter", 2, vec![1, 2, 3], "solver"),
        DaemonPkt {
            job: "solver".to_string(),
            pkt: DaemonPktType::MutexCreation(MutexCreationPkt {
                name: "counter".to_string(),
                client_id: 2,
                start_data: vec![1, 2, 3],
            }),
        }
    );
    assert_eq!(
        MutexLockReqPkt::new("counter", 3, "solver"),
        DaemonPkt {
            job: "solver".to_string(),
            pkt: DaemonPktType::MutexLockReq(MutexLockReqPkt {
                name: "counter".to_string(),
                id: 3,
            }),
        }
    );
    assert_eq!(
        MutexWriteAndReleasePkt::new("counter", vec![9], "solver"),
        DaemonPkt {
            job: "solver".to_string(),
            pkt: DaemonPktType::MutexWriteAndRelease(MutexWriteAndReleasePkt {
                mutex_name: "counter".to_string(),
                data: vec![9],
            }),
        }
    );
}

#[test]
fn barrier_and_finalize_packets_carry_rank_and_size() {
    assert_eq!(
        BarrierPkt::new(1, 4, "j"),
        DaemonPkt { job: "j".to_string(), pkt: DaemonPktType::Barrier(BarrierPkt { id: 1, size: 4 }) }
    );
    assert_eq!(
        FinalizePkt::new(3, 4, "j"),
        DaemonPkt {
            job: "j".to_string(),
            pkt: DaemonPktType::Finalize(FinalizePkt { id: 3, size: 4 }),
        }
    );
}

#[test]
fn reply_constructors_wrap_their_packets() {
    let listeners = vec![addr(1), addr(2)];
    assert_eq!(
        ClientRegistrationReplyPkt::new(1, &listeners),
        DaemonReplyPkt::ClientRegistrationReply(ClientRegistrationReplyPkt {
            id: 1,
            client_listeners: vec![addr(1), addr(2)],
        })
    );
    assert_eq!(
        MutexCreationReplyPkt::new("m"),
        DaemonReplyPkt::MutexCreationReply(MutexCreationReplyPkt { name: "m".to_string() })
    );
    assert_eq!(BarrierReplyPkt::new(4), DaemonReplyPkt::BarrierReply(BarrierReplyPkt { id: 4 }));
    assert_eq!(FinalizeReplyPkt::new(4), DaemonReplyPkt::FinalizeReply(FinalizeReplyPkt { id: 4 }));
}

#[test]
fn receive_accepts_only_its_own_kind_of_reply() {
    let reg = ClientRegistrationReplyPkt::new(0, &vec![addr(7)]);
    let created = MutexCreationReplyPkt::new("m");
    let released = BarrierReplyPkt::new(2);
    let done = FinalizeReplyPkt::new(2);

    assert_eq!(
        ClientRegistrationReplyPkt::receive(reg.clone()),
        Some(ClientRegistrationReplyPkt { id: 0, client_listeners: vec![addr(7)] })
    );
    assert_eq!(ClientRegistrationReplyPkt::receive(released.clone()), None);

    assert_eq!(
        MutexCreationReplyPkt::receive(created.clone()),
        Some(MutexCreationReplyPkt { name: "m".to_string() })
    );
    assert_eq!(MutexCreationReplyPkt::receive(reg.clone()), None);

    assert_eq!(BarrierReplyPkt::receive(released.clone()), Some(BarrierReplyPkt { id: 2 }));
    assert_eq!(BarrierReplyPkt::receive(done.clone()), None);

    assert_eq!(FinalizeReplyPkt::receive(done), Some(FinalizeReplyPkt { id: 2 }));
    assert_eq!(FinalizeReplyPkt::receive(released), None);
    assert_eq!(FinalizeReplyPkt::receive(created), None);
}

#[test]
fn operation_packet_carries_sender_tag_and_address() {
    let pkt = ClientOperationPkt::new(2, 7, addr(6000));
    assert_eq!(pkt.client_id, 2);
    assert_eq!(pkt.op_id, 7);
    assert_eq!(pkt.addr, addr(6000));
}
