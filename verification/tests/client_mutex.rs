use heimdallr::address::{IpAddress, SocketAddress};
use heimdallr::client::{ClientOptions, HeimdallrClient};
use heimdallr::mutex::{HeimdallrMutex, HeimdallrMutexDataHandle};
use heimdallr::networking::{
    BarrierReplyPkt, ClientRegistrationReplyPkt, MutexCreationPkt, MutexCreationReplyPkt,
    MutexLockReqPkt, MutexWriteAndReleasePkt,
};

fn confirmation(name: &str) -> MutexCreationReplyPkt {
    MutexCreationReplyPkt::receive(MutexCreationReplyPkt::new(name)).unwrap()
}

fn client(id: u32) -> HeimdallrClient {
    let args: Vec<String> =
        ["solver", "-p", "p", "-n", "n", "-j", "2"].iter().map(|s| s.to_string()).collect();
    let options = ClientOptions::parse(&args).unwrap();
    let listeners = vec![
        SocketAddress::new(IpAddress::V4(1), 1000),
        SocketAddress::new(IpAddress::V4(2), 2000),
    ];
    let reply = ClientRegistrationReplyPkt::receive(ClientRegistrationReplyPkt::new(id, &listeners));
    HeimdallrClient::init(options, reply.unwrap())
}

#[test]
fn creation_request_names_mutex_rank_and_job() {
    let c = client(1);
    assert_eq!(
        HeimdallrMutex::<u64>::creation_request(&c, "counter", vec![0; 8]),
        MutexCreationPkt::new("counter", 1, vec![0; 8], "solver")
    );
}

#[test]
fn mutex_is_made_from_the_confirmation() {
    let c = client(1);
    let mutex = c.create_mutex("counter", 5u64, confirmation("counter"));
    assert_eq!(mutex.name, "counter");
    assert_eq!(mutex.job, "solver");
    assert_eq!(mutex.client_id, 1);
    assert_eq!(mutex.data, 5);
    let direct = HeimdallrMutex::new(&c, "text", String::new(), confirmation("text"));
    assert_eq!(direct.name, "text");
    assert_eq!(direct.job, "solver");
    assert_eq!(direct.client_id, 1);
    assert_eq!(direct.data, "");
}

#[test]
fn only_a_creation_reply_is_a_confirmation() {
    assert_eq!(
        MutexCreationReplyPkt::receive(MutexCreationReplyPkt::new("counter")),
        Some(MutexCreationReplyPkt { name: "counter".to_string() })
    );
    assert_eq!(MutexCreationReplyPkt::receive(BarrierReplyPkt::new(2)), None);
}

#[test]
fn lock_and_release_requests_name_the_mutex() {
    let c = client(1);
    let mutex = c.create_mutex("counter", 5u64, confirmation("counter"));
    assert_eq!(mutex.lock_request(), MutexLockReqPkt::new("counter", 1, "solver"));
    assert_eq!(
        mutex.push_data(vec![6, 0, 0, 0, 0, 0, 0, 0]),
        MutexWriteAndReleasePkt::new("counter", vec![6, 0, 0, 0, 0, 0, 0, 0], "solver")
    );
}

#[test]
fn handle_reads_what_the_coordinator_sent_and_keeps_what_is_set() {
    let c = client(0);
    let mut mutex = c.create_mutex("counter", 0u64, confirmation("counter"));
    {
        let mut handle = mutex.lock(41);
        assert_eq!(*handle.get(), 41);
        let next = *handle.get() + 1;
        handle.set(next);
        assert_eq!(*handle.get(), 42);
    }
    assert_eq!(mutex.data, 42);
    assert_eq!(mutex.name, "counter");
    {
        let handle = HeimdallrMutexDataHandle::new(&mut mutex);
        assert_eq!(*handle.get(), 42);
    }
}
