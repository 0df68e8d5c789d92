//! The rendezvous that turns independently started clients into a job with
//! numbered ranks.

use vstd::prelude::*;
use crate::address::SocketAddress;
use crate::networking::{
    ClientRegistrationPktView, ClientRegistrationReplyPkt, ClientRegistrationReplyPktView,
    DaemonPkt, DaemonPktType, DaemonPktTypeView, DaemonPktView, DaemonReplyPkt,
    DaemonReplyPktView,
};

verus! {

/// The clients that have registered so far, in their order of arrival, and
/// the job they register for.
#[derive(Clone, Debug, PartialEq, Eq)]
pub struct Registration {
    pub job_name: String,
    pub job_size: u32,
    pub client_listeners: Vec<SocketAddress>,
}

/// What became of a packet that arrived during registration.
#[derive(Clone, Copy, Debug, PartialEq, Eq, Structural)]
pub enum Registered {
    /// The client was taken into the job under this rank.
    Rank(u32),
    /// The packet was no registration and was passed over.
    Unknown,
    /// The client registers for another job than the one that is being
    /// gathered, and was passed over.
    OtherJob,
    /// The job cannot number another client.
    Full,
}

/// A registration as plain mathematics.
pub struct RegistrationModel {
    pub job_name: Seq<char>,
    pub job_size: u32,
    pub client_listeners: Seq<SocketAddress>,
}

impl RegistrationModel {
    /// The clients can be numbered by ranks.
    pub open spec fn wf(self) -> bool {
        self.client_listeners.len() <= u32::MAX
    }

    /// The registration before any client has arrived.
    pub open spec fn start() -> RegistrationModel {
        RegistrationModel { job_name: Seq::empty(), job_size: 0, client_listeners: Seq::empty() }
    }

    /// Whether no client has registered yet.
    pub open spec fn is_empty(self) -> bool {
        self.client_listeners.len() == 0
    }

    /// Whether the client behind `reg` belongs to the job that is being
    /// gathered: the first client names the job, every later one has to name
    /// the same.
    pub open spec fn accepts(self, reg: ClientRegistrationPktView) -> bool {
        self.is_empty() || reg.job == self.job_name
    }

    /// Whether the next client can still be given a rank.
    pub open spec fn has_room(self) -> bool {
        self.client_listeners.len() < u32::MAX
    }

    /// The registration after the client behind `reg` has been taken in.
    /// The job and the size that the first client names are those of the
    /// job.
    pub open spec fn enroll(self, reg: ClientRegistrationPktView) -> RegistrationModel {
        RegistrationModel {
            job_name: if self.is_empty() {
                reg.job
            } else {
                self.job_name
            },
            job_size: if self.is_empty() {
                reg.size
            } else {
                self.job_size
            },
            client_listeners: self.client_listeners.push(reg.listener_addr),
        }
    }

    /// What becomes of `pkt` when it arrives.
    pub open spec fn outcome(self, pkt: DaemonPktView) -> Registered {
        match pkt.pkt {
            DaemonPktTypeView::ClientRegistration(reg) => if !self.accepts(reg) {
                Registered::OtherJob
            } else if !self.has_room() {
                Registered::Full
            } else {
                Registered::Rank(self.client_listeners.len() as u32)
            },
            _ => Registered::Unknown,
        }
    }

    /// The registration after `pkt` has arrived: only a client that is given
    /// a rank changes it.
    pub open spec fn register(self, pkt: DaemonPktView) -> RegistrationModel {
        match pkt.pkt {
            DaemonPktTypeView::ClientRegistration(reg) => if self.outcome(pkt) is Rank {
                self.enroll(reg)
            } else {
                self
            },
            _ => self,
        }
    }

    /// The registration after the packets `pkts` have arrived, one after the
    /// other.
    pub open spec fn register_all(self, pkts: Seq<DaemonPktView>) -> RegistrationModel
        decreases pkts.len(),
    {
        if pkts.len() == 0 {
            self
        } else {
            self.register_all(pkts.drop_last()).register(pkts.last())
        }
    }

    /// Whether the job is gathered: at least one client has registered, and
    /// as many have as the job has members.
    pub open spec fn is_complete(self) -> bool {
        !self.is_empty() && self.client_listeners.len() == self.job_size
    }

    /// The reply owed to the client of rank `id`.
    pub open spec fn reply(self, id: u32) -> DaemonReplyPktView {
        DaemonReplyPktView::ClientRegistrationReply(
            ClientRegistrationReplyPktView { id, client_listeners: self.client_listeners },
        )
    }
}

/// The registrations among `pkts` that belong to one job: the first
/// registration, and every later one that names the same job.
pub open spec fn joined(pkts: Seq<DaemonPktView>) -> Seq<ClientRegistrationPktView>
    decreases pkts.len(),
{
    if pkts.len() == 0 {
        Seq::empty()
    } else {
        let before = joined(pkts.drop_last());
        match pkts.last().pkt {
            DaemonPktTypeView::ClientRegistration(reg) => if before.len() == 0 || reg.job
                == before[0].job {
                before.push(reg)
            } else {
                before
            },
            _ => before,
        }
    }
}

impl View for Registration {
    type V = RegistrationModel;

    open spec fn view(&self) -> RegistrationModel {
        RegistrationModel {
            job_name: self.job_name@,
            job_size: self.job_size,
            client_listeners: self.client_listeners@,
        }
    }
}

impl Registration {
    /// The registration before any client has arrived.
    pub fn new() -> (registration: Registration)
        ensures
            registration@ == RegistrationModel::start(),
            registration@.wf(),
    {
        Registration { job_name: String::new(), job_size: 0, client_listeners: Vec::new() }
    }

    /// Takes a packet that arrived on a fresh connection. The first
    /// registration names and sizes the job and gets rank 0; a later one for
    /// the same job gets the next rank; each records its peer listener. A
    /// registration for another job, and a packet that is no registration,
    /// change nothing.
    pub fn register(&mut self, pkt: DaemonPkt) -> (outcome: Registered)
        requires
            old(self)@.wf(),
        ensures
            final(self)@ == old(self)@.register(pkt@),
            final(self)@.wf(),
            outcome == old(self)@.outcome(pkt@),
    {
        match pkt.pkt {
            DaemonPktType::ClientRegistration(reg) => {
                let first = self.client_listeners.len() == 0;
                if !first && !(reg.job == self.job_name) {
                    return Registered::OtherJob;
                }
                if self.client_listeners.len() >= u32::MAX as usize {
                    return Registered::Full;
                }
                let rank = self.client_listeners.len() as u32;
                if first {
                    self.job_name = reg.job;
                    self.job_size = reg.size;
                }
                self.client_listeners.push(reg.listener_addr);
                Registered::Rank(rank)
            },
            _ => Registered::Unknown,
        }
    }

    /// Whether the job is gathered: at least one client has registered, and
    /// as many have as the job has members.
    pub fn is_complete(&self) -> (complete: bool)
        requires
            self@.wf(),
        ensures
            complete == self@.is_complete(),
    {
        self.client_listeners.len() > 0 && self.client_listeners.len() == self.job_size as usize
    }

    /// The replies owed to the clients, by rank: each tells its client its
    /// rank and the peer listeners of all ranks.
    pub fn replies(&self) -> (replies: Vec<DaemonReplyPkt>)
        requires
            self@.wf(),
        ensures
            replies@.len() == self@.client_listeners.len(),
            forall|k: int|
                0 <= k < replies@.len() ==> (#[trigger] replies@[k])@ == self@.reply(k as u32),
    {
        let mut replies: Vec<DaemonReplyPkt> = Vec::new();
        let mut id: usize = 0;
        while id < self.client_listeners.len()
            invariant
                self@.wf(),
                id <= self.client_listeners.len(),
                replies@.len() == id,
                forall|k: int|
                    0 <= k < replies@.len() ==> (#[trigger] replies@[k])@ == self@.reply(k as u32),
            decreases self.client_listeners.len() - id,
        {
            replies.push(ClientRegistrationReplyPkt::new(id as u32, &self.client_listeners));
            id = id + 1;
        }
        replies
    }
}

/// Ranks follow arrival, and nothing else counts: after any packets have
/// arrived at a fresh coordinator, the list of peer listeners has one entry
/// for each registration that belongs to the job, entry `k` is the address
/// that the `k`-th of them advertised, and the reply to rank `k` carries
/// that list. Packets that are no registrations, and registrations for
/// another job, leave no trace. The job has the name and the size that the
/// first registration gave, and it is gathered exactly when at least one
/// client has registered and as many have as that size says.
pub proof fn lemma_listeners_follow_arrival(pkts: Seq<DaemonPktView>)
    requires
        joined(pkts).len() <= u32::MAX,
    ensures
        RegistrationModel::start().register_all(pkts).wf(),
        RegistrationModel::start().register_all(pkts).client_listeners == joined(pkts).map_values(
            |reg: ClientRegistrationPktView| reg.listener_addr,
        ),
        forall|k: int|
            0 <= k < joined(pkts).len() ==> #[trigger] RegistrationModel::start().register_all(
                pkts,
            ).client_listeners[k] == joined(pkts)[k].listener_addr,
        forall|k: u32|
            k < joined(pkts).len() ==> #[trigger] RegistrationModel::start().register_all(
                pkts,
            ).reply(k) == DaemonReplyPktView::ClientRegistrationReply(
                ClientRegistrationReplyPktView {
                    id: k,
                    client_listeners: joined(pkts).map_values(
                        |reg: ClientRegistrationPktView| reg.listener_addr,
                    ),
                },
            ),
        joined(pkts).len() > 0 ==> {
            &&& RegistrationModel::start().register_all(pkts).job_name == joined(pkts)[0].job
            &&& RegistrationModel::start().register_all(pkts).job_size == joined(pkts)[0].size
        },
        RegistrationModel::start().register_all(pkts).is_complete() <==> (joined(pkts).len() > 0
            && joined(pkts).len() == joined(pkts)[0].size),
    decreases pkts.len(),
{
    let after = RegistrationModel::start().register_all(pkts);
    let addrs = joined(pkts).map_values(|reg: ClientRegistrationPktView| reg.listener_addr);
    if pkts.len() > 0 {
        let front = pkts.drop_last();
        let before = RegistrationModel::start().register_all(front);
        let members = joined(front);
        assert(members.len() <= joined(pkts).len());
        lemma_listeners_follow_arrival(front);
        assert(before.client_listeners.len() == members.len());
        match pkts.last().pkt {
            DaemonPktTypeView::ClientRegistration(reg) => {
                if members.len() > 0 {
                    assert(joined(pkts)[0] == members[0]);
                }
            },
            _ => {},
        }
        assert(after.client_listeners =~= addrs);
    } else {
        assert(after.client_listeners =~= addrs);
    }
}

} // verus!
