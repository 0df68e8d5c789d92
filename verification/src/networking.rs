//! The packets of the protocol.
//!
//! Three families exist: requests from a client to the coordinator
//! ([`DaemonPkt`]), replies from the coordinator ([`DaemonReplyPkt`]) and the
//! announcement one client sends another before a transfer
//! ([`ClientOperationPkt`]). Each type comes with a view that replaces
//! strings and vectors by sequences, and contracts are stated over the views.

use vstd::prelude::*;
use vstd::string::*;
use crate::address::SocketAddress;

verus! {

/// Registers a client for a job of `size` members and advertises the address
/// of its peer listener.
#[derive(Clone, Debug, PartialEq, Eq)]
pub struct ClientRegistrationPkt {
    pub job: String,
    pub size: u32,
    pub listener_addr: SocketAddress,
}

/// Contributes one rank to the construction of a named mutex.
#[derive(Clone, Debug, PartialEq, Eq)]
pub struct MutexCreationPkt {
    pub name: String,
    pub client_id: u32,
    pub start_data: Vec<u8>,
}

/// Asks for the lock of a named mutex on behalf of rank `id`.
#[derive(Clone, Debug, PartialEq, Eq)]
pub struct MutexLockReqPkt {
    pub name: String,
    pub id: u32,
}

/// Stores a new value in a named mutex and gives the lock back.
#[derive(Clone, Debug, PartialEq, Eq)]
pub struct MutexWriteAndReleasePkt {
    pub mutex_name: String,
    pub data: Vec<u8>,
}

/// Rank `id` of a job of `size` members enters the barrier.
#[derive(Clone, Copy, Debug, PartialEq, Eq, Structural)]
pub struct BarrierPkt {
    pub id: u32,
    pub size: u32,
}

/// Rank `id` of a job of `size` members is shutting down.
#[derive(Clone, Copy, Debug, PartialEq, Eq, Structural)]
pub struct FinalizePkt {
    pub id: u32,
    pub size: u32,
}

/// What a client can ask of the coordinator.
#[derive(Clone, Debug, PartialEq, Eq)]
pub enum DaemonPktType {
    ClientRegistration(ClientRegistrationPkt),
    MutexCreation(MutexCreationPkt),
    MutexLockReq(MutexLockReqPkt),
    MutexWriteAndRelease(MutexWriteAndReleasePkt),
    Barrier(BarrierPkt),
    Finalize(FinalizePkt),
}

/// A request together with the name of the job it belongs to.
#[derive(Clone, Debug, PartialEq, Eq)]
pub struct DaemonPkt {
    pub job: String,
    pub pkt: DaemonPktType,
}

/// Tells a client its rank and the peer listeners of all ranks.
#[derive(Clone, Debug, PartialEq, Eq)]
pub struct ClientRegistrationReplyPkt {
    pub id: u32,
    pub client_listeners: Vec<SocketAddress>,
}

/// Tells a client that every rank has joined the named mutex.
#[derive(Clone, Debug, PartialEq, Eq)]
pub struct MutexCreationReplyPkt {
    pub name: String,
}

/// Releases a client from the barrier.
#[derive(Clone, Copy, Debug, PartialEq, Eq, Structural)]
pub struct BarrierReplyPkt {
    pub id: u32,
}

/// Acknowledges a client's shutdown.
#[derive(Clone, Copy, Debug, PartialEq, Eq, Structural)]
pub struct FinalizeReplyPkt {
    pub id: u32,
}

/// What the coordinator can answer.
#[derive(Clone, Debug, PartialEq, Eq)]
pub enum DaemonReplyPkt {
    ClientRegistrationReply(ClientRegistrationReplyPkt),
    MutexCreationReply(MutexCreationReplyPkt),
    BarrierReply(BarrierReplyPkt),
    FinalizeReply(FinalizeReplyPkt),
}

/// Announces a transfer: rank `client_id` offers the message tagged `op_id`
/// at the address `addr`.
#[derive(Clone, Copy, Debug, PartialEq, Eq, Structural)]
pub struct ClientOperationPkt {
    pub client_id: u32,
    pub op_id: u32,
    pub addr: SocketAddress,
}

pub struct ClientRegistrationPktView {
    pub job: Seq<char>,
    pub size: u32,
    pub listener_addr: SocketAddress,
}

pub struct MutexCreationPktView {
    pub name: Seq<char>,
    pub client_id: u32,
    pub start_data: Seq<u8>,
}

pub struct MutexLockReqPktView {
    pub name: Seq<char>,
    pub id: u32,
}

pub struct MutexWriteAndReleasePktView {
    pub mutex_name: Seq<char>,
    pub data: Seq<u8>,
}

pub enum DaemonPktTypeView {
    ClientRegistration(ClientRegistrationPktView),
    MutexCreation(MutexCreationPktView),
    MutexLockReq(MutexLockReqPktView),
    MutexWriteAndRelease(MutexWriteAndReleasePktView),
    Barrier(BarrierPkt),
    Finalize(FinalizePkt),
}

pub struct DaemonPktView {
    pub job: Seq<char>,
    pub pkt: DaemonPktTypeView,
}

pub struct ClientRegistrationReplyPktView {
    pub id: u32,
    pub client_listeners: Seq<SocketAddress>,
}

pub struct MutexCreationReplyPktView {
    pub name: Seq<char>,
}

pub enum DaemonReplyPktView {
    ClientRegistrationReply(ClientRegistrationReplyPktView),
    MutexCreationReply(MutexCreationReplyPktView),
    BarrierReply(BarrierReplyPkt),
    FinalizeReply(FinalizeReplyPkt),
}

impl View for ClientRegistrationPkt {
    type V = ClientRegistrationPktView;

    open spec fn view(&self) -> ClientRegistrationPktView {
        ClientRegistrationPktView {
            job: self.job@,
            size: self.size,
            listener_addr: self.listener_addr,
        }
    }
}

impl View for MutexCreationPkt {
    type V = MutexCreationPktView;

    open spec fn view(&self) -> MutexCreationPktView {
        MutexCreationPktView {
            name: self.name@,
            client_id: self.client_id,
            start_data: self.start_data@,
        }
    }
}

impl View for MutexLockReqPkt {
    type V = MutexLockReqPktView;

    open spec fn view(&self) -> MutexLockReqPktView {
        MutexLockReqPktView { name: self.name@, id: self.id }
    }
}

impl View for MutexWriteAndReleasePkt {
    type V = MutexWriteAndReleasePktView;

    open spec fn view(&self) -> MutexWriteAndReleasePktView {
        MutexWriteAndReleasePktView { mutex_name: self.mutex_name@, data: self.data@ }
    }
}

impl View for DaemonPktType {
    type V = DaemonPktTypeView;

    open spec fn view(&self) -> DaemonPktTypeView {
        match *self {
            DaemonPktType::ClientRegistration(p) => DaemonPktTypeView::ClientRegistration(p@),
            DaemonPktType::MutexCreation(p) => DaemonPktTypeView::MutexCreation(p@),
            DaemonPktType::MutexLockReq(p) => DaemonPktTypeView::MutexLockReq(p@),
            DaemonPktType::MutexWriteAndRelease(p) => DaemonPktTypeView::MutexWriteAndRelease(p@),
            DaemonPktType::Barrier(p) => DaemonPktTypeView::Barrier(p),
            DaemonPktType::Finalize(p) => DaemonPktTypeView::Finalize(p),
        }
    }
}

impl View for DaemonPkt {
    type V = DaemonPktView;

    open spec fn view(&self) -> DaemonPktView {
        DaemonPktView { job: self.job@, pkt: self.pkt@ }
    }
}

impl View for ClientRegistrationReplyPkt {
    type V = ClientRegistrationReplyPktView;

    open spec fn view(&self) -> ClientRegistrationReplyPktView {
        ClientRegistrationReplyPktView { id: self.id, client_listeners: self.client_listeners@ }
    }
}

impl View for MutexCreationReplyPkt {
    type V = MutexCreationReplyPktView;

    open spec fn view(&self) -> MutexCreationReplyPktView {
        MutexCreationReplyPktView { name: self.name@ }
    }
}

impl View for DaemonReplyPkt {
    type V = DaemonReplyPktView;

    open spec fn view(&self) -> DaemonReplyPktView {
        match *self {
            DaemonReplyPkt::ClientRegistrationReply(p) => DaemonReplyPktView::ClientRegistrationReply(p@),
            DaemonReplyPkt::MutexCreationReply(p) => DaemonReplyPktView::MutexCreationReply(p@),
            DaemonReplyPkt::BarrierReply(p) => DaemonReplyPktView::BarrierReply(p),
            DaemonReplyPkt::FinalizeReply(p) => DaemonReplyPktView::FinalizeReply(p),
        }
    }
}

impl ClientRegistrationPkt {
    /// The request that registers a client for `job`.
    pub fn new(job: &str, size: u32, listener_addr: SocketAddress) -> (pkt: DaemonPkt)
        ensures
            pkt@ == (DaemonPktView {
                job: job@,
                pkt: DaemonPktTypeView::ClientRegistration(
                    ClientRegistrationPktView { job: job@, size, listener_addr },
                ),
            }),
    {
        let pkt = DaemonPktType::ClientRegistration(
            ClientRegistrationPkt { job: String::from_str(job), size, listener_addr },
        );
        DaemonPkt { job: String::from_str(job), pkt }
    }
}

impl MutexCreationPkt {
    /// The request by which rank `id` joins the mutex `name`, offering
    /// `serialized_data` as its first value.
    pub fn new(name: &str, id: u32, serialized_data: Vec<u8>, job: &str) -> (pkt: DaemonPkt)
        ensures
            pkt@ == (DaemonPktView {
                job: job@,
                pkt: DaemonPktTypeView::MutexCreation(
                    MutexCreationPktView {
                        name: name@,
                        client_id: id,
                        start_data: serialized_data@,
                    },
                ),
            }),
    {
        let pkt = DaemonPktType::MutexCreation(
            MutexCreationPkt {
                name: String::from_str(name),
                client_id: id,
                start_data: serialized_data,
            },
        );
        DaemonPkt { job: String::from_str(job), pkt }
    }
}

impl MutexLockReqPkt {
    /// The request by which rank `client_id` asks for the lock of `name`.
    pub fn new(name: &str, client_id: u32, job: &str) -> (pkt: DaemonPkt)
        ensures
            pkt@ == (DaemonPktView {
                job: job@,
                pkt: DaemonPktTypeView::MutexLockReq(
                    MutexLockReqPktView { name: name@, id: client_id },
                ),
            }),
    {
        let pkt = DaemonPktType::MutexLockReq(
            MutexLockReqPkt { name: String::from_str(name), id: client_id },
        );
        DaemonPkt { job: String::from_str(job), pkt }
    }
}

impl MutexWriteAndReleasePkt {
    /// The request that stores `data` in `mutex_name` and releases its lock.
    pub fn new(mutex_name: &str, data: Vec<u8>, job: &str) -> (pkt: DaemonPkt)
        ensures
            pkt@ == (DaemonPktView {
                job: job@,
                pkt: DaemonPktTypeView::MutexWriteAndRelease(
                    MutexWriteAndReleasePktView { mutex_name: mutex_name@, data: data@ },
                ),
            }),
    {
        let pkt = DaemonPktType::MutexWriteAndRelease(
            MutexWriteAndReleasePkt { mutex_name: String::from_str(mutex_name), data },
        );
        DaemonPkt { job: String::from_str(job), pkt }
    }
}

impl BarrierPkt {
    /// The request by which rank `id` enters the barrier.
    pub fn new(id: u32, size: u32, job: &str) -> (pkt: DaemonPkt)
        ensures
            pkt@ == (DaemonPktView {
                job: job@,
                pkt: DaemonPktTypeView::Barrier(BarrierPkt { id, size }),
            }),
    {
        let pkt = DaemonPktType::Barrier(BarrierPkt { id, size });
        DaemonPkt { job: String::from_str(job), pkt }
    }
}

impl FinalizePkt {
    /// The request by which rank `id` announces its shutdown.
    pub fn new(id: u32, size: u32, job: &str) -> (pkt: DaemonPkt)
        ensures
            pkt@ == (DaemonPktView {
                job: job@,
                pkt: DaemonPktTypeView::Finalize(FinalizePkt { id, size }),
            }),
    {
        let pkt = DaemonPktType::Finalize(FinalizePkt { id, size });
        DaemonPkt { job: String::from_str(job), pkt }
    }
}

impl ClientRegistrationReplyPkt {
    /// The reply that gives a client the rank `id` and a copy of the peer
    /// listeners of all ranks.
    pub fn new(id: u32, client_listeners: &Vec<SocketAddress>) -> (pkt: DaemonReplyPkt)
        ensures
            pkt@ == DaemonReplyPktView::ClientRegistrationReply(
                ClientRegistrationReplyPktView { id, client_listeners: client_listeners@ },
            ),
    {
        let mut copy: Vec<SocketAddress> = Vec::new();
        let mut i: usize = 0;
        while i < client_listeners.len()
            invariant
                i <= client_listeners.len(),
                copy@ == client_listeners@.subrange(0, i as int),
            decreases client_listeners.len() - i,
        {
            copy.push(client_listeners[i]);
            i = i + 1;
        }
        assert(copy@ == client_listeners@);
        DaemonReplyPkt::ClientRegistrationReply(
            ClientRegistrationReplyPkt { id, client_listeners: copy },
        )
    }

    /// Takes a reply for a registration reply: the packet it carries, or
    /// `None` for any other kind of reply.
    pub fn receive(reply: DaemonReplyPkt) -> (pkt: Option<ClientRegistrationReplyPkt>)
        ensures
            pkt == match reply {
                DaemonReplyPkt::ClientRegistrationReply(r) => Some(r),
                _ => None,
            },
    {
        match reply {
            DaemonReplyPkt::ClientRegistrationReply(r) => Some(r),
            _ => None,
        }
    }
}

impl MutexCreationReplyPkt {
    /// The reply that confirms the construction of the mutex `name`.
    pub fn new(name: &str) -> (pkt: DaemonReplyPkt)
        ensures
            pkt@ == DaemonReplyPktView::MutexCreationReply(
                MutexCreationReplyPktView { name: name@ },
            ),
    {
        DaemonReplyPkt::MutexCreationReply(MutexCreationReplyPkt { name: String::from_str(name) })
    }

    /// Takes a reply for a mutex creation reply: the packet it carries, or
    /// `None` for any other kind of reply.
    pub fn receive(reply: DaemonReplyPkt) -> (pkt: Option<MutexCreationReplyPkt>)
        ensures
            pkt == match reply {
                DaemonReplyPkt::MutexCreationReply(r) => Some(r),
                _ => None,
            },
    {
        match reply {
            DaemonReplyPkt::MutexCreationReply(r) => Some(r),
            _ => None,
        }
    }
}

impl BarrierReplyPkt {
    /// The reply that releases a client from the barrier.
    pub fn new(id: u32) -> (pkt: DaemonReplyPkt)
        ensures
            pkt == DaemonReplyPkt::BarrierReply(BarrierReplyPkt { id }),
    {
        DaemonReplyPkt::BarrierReply(BarrierReplyPkt { id })
    }

    /// Takes a reply for a barrier reply: the packet it carries, or `None`
    /// for any other kind of reply.
    pub fn receive(reply: DaemonReplyPkt) -> (pkt: Option<BarrierReplyPkt>)
        ensures
            pkt == match reply {
                DaemonReplyPkt::BarrierReply(r) => Some(r),
                _ => None,
            },
    {
        match reply {
            DaemonReplyPkt::BarrierReply(r) => Some(r),
            _ => None,
        }
    }
}

impl FinalizeReplyPkt {
    /// The reply that acknowledges a client's shutdown.
    pub fn new(id: u32) -> (pkt: DaemonReplyPkt)
        ensures
            pkt == DaemonReplyPkt::FinalizeReply(FinalizeReplyPkt { id }),
    {
        DaemonReplyPkt::FinalizeReply(FinalizeReplyPkt { id })
    }

    /// Takes a reply for a finalize reply: the packet it carries, or `None`
    /// for any other kind of reply.
    pub fn receive(reply: DaemonReplyPkt) -> (pkt: Option<FinalizeReplyPkt>)
        ensures
            pkt == match reply {
                DaemonReplyPkt::FinalizeReply(r) => Some(r),
                _ => None,
            },
    {
        match reply {
            DaemonReplyPkt::FinalizeReply(r) => Some(r),
            _ => None,
        }
    }
}

impl ClientOperationPkt {
    /// The announcement by which rank `client_id` offers the message tagged
    /// `op_id` at `addr`.
    pub fn new(client_id: u32, op_id: u32, addr: SocketAddress) -> (pkt: ClientOperationPkt)
        ensures
            pkt == (ClientOperationPkt { client_id, op_id, addr }),
    {
        ClientOperationPkt { client_id, op_id, addr }
    }
}

} // verus!
