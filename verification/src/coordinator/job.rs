//! A registered job and the decisions of the handler that serves one of its
//! clients.
//!
//! The handler of a client alternates between outside work and decisions.
//! It reads a packet and calls [`handle_client`]; where the answer depends
//! on the other ranks, it waits until the handlers of all ranks have come to
//! the same point and calls [`resume_client`]. Both say what to send and
//! what to do next; neither touches a connection.

use vstd::prelude::*;
use crate::coordinator::barrier::{lemma_barrier_waits_for_all, BarrierModel, DaemonBarrier};
use crate::coordinator::fairness::MutexEvent;
use crate::coordinator::lemma_marked_one_more;
use crate::coordinator::finalization::{
    lemma_finalization_waits_for_all, FinalizationModel, JobFinalization,
};
use crate::coordinator::mutex::{
    delivery_view, Delivery, DeliveryView, HeimdallrDaemonMutex, MutexModel,
};
use crate::networking::{
    BarrierReplyPkt, DaemonPkt, DaemonPktType, DaemonPktTypeView, DaemonReplyPkt,
    DaemonReplyPktView, FinalizeReplyPkt, MutexCreationReplyPkt,
    MutexCreationReplyPktView, MutexLockReqPktView, MutexWriteAndReleasePktView,
};

verus! {

/// What the coordinator keeps of a job once its clients are numbered.
#[derive(Clone, Debug, PartialEq, Eq)]
pub struct Job {
    pub size: u32,
    pub barrier: DaemonBarrier,
    pub finalize: JobFinalization,
    pub mutexes: Vec<HeimdallrDaemonMutex>,
}

/// The point at which a handler waits for the handlers of all ranks.
#[derive(Clone, Debug, PartialEq, Eq)]
pub enum Pending {
    /// Its client has joined the named mutex and waits for the others.
    MutexCreation { name: String },
    /// Its client has entered the barrier and waits to be released.
    BarrierReply,
    /// The barrier has released its client and waits to be emptied.
    BarrierReset,
    /// The barrier has been emptied for the next epoch.
    BarrierDone,
    /// Its client has announced its shutdown and waits for the others.
    FinalizeReply,
    /// The shutdown has been acknowledged.
    FinalizeDone,
}

/// What a handler does after a decision.
#[derive(Clone, Debug, PartialEq, Eq)]
pub enum Next {
    /// Read the next packet of the client.
    Receive,
    /// Wait for the handlers of all ranks, then resume at this point.
    Rendezvous(Pending),
    /// End: the client is gone.
    Stop,
}

/// Something out of order that the handler passes over.
#[derive(Clone, Copy, Debug, PartialEq, Eq, Structural)]
pub enum Notice {
    /// A value was written to a mutex that nobody held.
    ReleaseNotLocked,
    /// The handlers met over a mutex that some rank has not joined.
    MutexNotConstructed,
    /// The handlers met over a barrier that some rank has not entered.
    BarrierNotFinished,
    /// The handlers met over a shutdown that some rank has not announced.
    FinalizeNotFinished,
}

/// A packet that cannot be served.
#[derive(Clone, Copy, Debug, PartialEq, Eq, Structural)]
pub enum HandlerError {
    /// The packet names a rank that the job does not have.
    RankOutOfRange(u32),
    /// The packet names a mutex that no rank has created.
    UnknownMutex,
}

/// One decision of a handler: what to send to its own client, what to send
/// to the new owner of a mutex, what to note, and what to do next.
#[derive(Clone, Debug, PartialEq, Eq)]
pub struct HandlerStep {
    pub reply: Option<DaemonReplyPkt>,
    pub delivery: Option<Delivery>,
    pub notice: Option<Notice>,
    pub next: Next,
}

pub enum PendingView {
    MutexCreation { name: Seq<char> },
    BarrierReply,
    BarrierReset,
    BarrierDone,
    FinalizeReply,
    FinalizeDone,
}

pub enum NextView {
    Receive,
    Rendezvous(PendingView),
    Stop,
}

pub struct StepView {
    pub reply: Option<DaemonReplyPktView>,
    pub delivery: Option<DeliveryView>,
    pub notice: Option<Notice>,
    pub next: NextView,
}

impl View for Pending {
    type V = PendingView;

    open spec fn view(&self) -> PendingView {
        match *self {
            Pending::MutexCreation { name } => PendingView::MutexCreation { name: name@ },
            Pending::BarrierReply => PendingView::BarrierReply,
            Pending::BarrierReset => PendingView::BarrierReset,
            Pending::BarrierDone => PendingView::BarrierDone,
            Pending::FinalizeReply => PendingView::FinalizeReply,
            Pending::FinalizeDone => PendingView::FinalizeDone,
        }
    }
}

impl View for Next {
    type V = NextView;

    open spec fn view(&self) -> NextView {
        match *self {
            Next::Receive => NextView::Receive,
            Next::Rendezvous(p) => NextView::Rendezvous(p@),
            Next::Stop => NextView::Stop,
        }
    }
}

impl View for HandlerStep {
    type V = StepView;

    open spec fn view(&self) -> StepView {
        StepView {
            reply: match self.reply {
                Some(r) => Some(r@),
                None => None,
            },
            delivery: delivery_view(self.delivery),
            notice: self.notice,
            next: self.next@,
        }
    }
}

impl StepView {
    /// The step that sends nothing, notes nothing and goes on with `next`.
    pub open spec fn quiet(next: NextView) -> StepView {
        StepView { reply: None, delivery: None, notice: None, next }
    }
}

/// A job as plain mathematics.
pub struct JobModel {
    pub size: nat,
    pub barrier: BarrierModel,
    pub finalize: FinalizationModel,
    pub mutexes: Seq<MutexModel>,
}

/// No two mutexes share a name.
pub open spec fn distinct_names(mutexes: Seq<MutexModel>) -> bool {
    forall|i: int, j: int|
        0 <= i < j < mutexes.len() ==> (#[trigger] mutexes[i]).name != (#[trigger] mutexes[j]).name
}

/// Whether the mutex at `i` is the one called `name`.
pub open spec fn named(mutexes: Seq<MutexModel>, name: Seq<char>, i: int) -> bool {
    0 <= i < mutexes.len() && mutexes[i].name == name
}

impl JobModel {
    /// Barrier, shutdown and every mutex are in order and sized for the
    /// job, and no two mutexes share a name.
    pub open spec fn wf(self) -> bool {
        &&& self.size <= u32::MAX
        &&& self.barrier.wf()
        &&& self.barrier.size == self.size
        &&& self.finalize.wf()
        &&& self.finalize.arrived.len() == self.size
        &&& forall|i: int|
            0 <= i < self.mutexes.len() ==> (#[trigger] self.mutexes[i]).wf() && self.mutexes[i].size()
                == self.size
        &&& distinct_names(self.mutexes)
    }

    /// A job of `size` ranks at its start.
    pub open spec fn start(size: nat) -> JobModel {
        JobModel {
            size,
            barrier: BarrierModel::start(size),
            finalize: FinalizationModel::start(size),
            mutexes: Seq::empty(),
        }
    }

    /// Whether the job has a mutex called `name`.
    pub open spec fn has_mutex(self, name: Seq<char>) -> bool {
        exists|i: int| named(self.mutexes, name, i)
    }

    /// The position of the mutex called `name`, where the job has one.
    pub open spec fn mutex_index(self, name: Seq<char>) -> int {
        choose|i: int| named(self.mutexes, name, i)
    }

    /// The mutex called `name`, where the job has one.
    pub open spec fn mutex(self, name: Seq<char>) -> MutexModel {
        self.mutexes[self.mutex_index(name)]
    }

    /// The job with the mutex called `name` replaced by `mutex`.
    pub open spec fn with_mutex(self, name: Seq<char>, mutex: MutexModel) -> JobModel {
        JobModel { mutexes: self.mutexes.update(self.mutex_index(name), mutex), ..self }
    }

    /// The job with a mutex called `name`: the job itself if it has one,
    /// else the job with a fresh mutex that holds `data`.
    pub open spec fn ensure_mutex(self, name: Seq<char>, data: Seq<u8>) -> JobModel {
        if self.has_mutex(name) {
            self
        } else {
            JobModel { mutexes: self.mutexes.push(MutexModel::start(name, self.size, data)), ..self }
        }
    }

    /// Why `pkt` cannot be served, if it cannot.
    pub open spec fn refusal(self, pkt: DaemonPktTypeView) -> Option<HandlerError> {
        match pkt {
            DaemonPktTypeView::ClientRegistration(_) => None,
            DaemonPktTypeView::MutexCreation(p) => if p.client_id >= self.size {
                Some(HandlerError::RankOutOfRange(p.client_id))
            } else {
                None
            },
            DaemonPktTypeView::MutexLockReq(p) => if !self.has_mutex(p.name) {
                Some(HandlerError::UnknownMutex)
            } else if p.id >= self.size {
                Some(HandlerError::RankOutOfRange(p.id))
            } else {
                None
            },
            DaemonPktTypeView::MutexWriteAndRelease(p) => if !self.has_mutex(p.mutex_name) {
                Some(HandlerError::UnknownMutex)
            } else {
                None
            },
            DaemonPktTypeView::Barrier(p) => if p.id >= self.size {
                Some(HandlerError::RankOutOfRange(p.id))
            } else {
                None
            },
            DaemonPktTypeView::Finalize(p) => if p.id >= self.size {
                Some(HandlerError::RankOutOfRange(p.id))
            } else {
                None
            },
        }
    }

    /// The job after `pkt` has been served.
    pub open spec fn handled(self, pkt: DaemonPktTypeView) -> JobModel {
        match pkt {
            DaemonPktTypeView::ClientRegistration(_) => self,
            DaemonPktTypeView::MutexCreation(p) => {
                let job = self.ensure_mutex(p.name, p.start_data);
                job.with_mutex(p.name, job.mutex(p.name).register_client(p.client_id))
            },
            DaemonPktTypeView::MutexLockReq(p) => self.with_mutex(
                p.name,
                self.mutex(p.name).access_request(p.id),
            ),
            DaemonPktTypeView::MutexWriteAndRelease(p) => self.with_mutex(
                p.mutex_name,
                self.mutex(p.mutex_name).write(p.data).release_request(),
            ),
            DaemonPktTypeView::Barrier(p) => JobModel {
                barrier: self.barrier.register_client(p.id),
                ..self
            },
            DaemonPktTypeView::Finalize(p) => JobModel {
                finalize: self.finalize.register_client(p.id),
                ..self
            },
        }
    }

    /// What the handler sends and does next when it serves `pkt`.
    pub open spec fn step_for(self, pkt: DaemonPktTypeView) -> StepView {
        match pkt {
            DaemonPktTypeView::ClientRegistration(_) => StepView::quiet(NextView::Receive),
            DaemonPktTypeView::MutexCreation(p) => StepView::quiet(
                NextView::Rendezvous(PendingView::MutexCreation { name: p.name }),
            ),
            DaemonPktTypeView::MutexLockReq(p) => StepView {
                delivery: self.mutex(p.name).enqueue(p.id).hand_over(),
                ..StepView::quiet(NextView::Receive)
            },
            DaemonPktTypeView::MutexWriteAndRelease(p) => if self.mutex(p.mutex_name).locked {
                StepView {
                    delivery: self.mutex(p.mutex_name).write(p.data).unlock().hand_over(),
                    ..StepView::quiet(NextView::Receive)
                }
            } else {
                StepView {
                    notice: Some(Notice::ReleaseNotLocked),
                    ..StepView::quiet(NextView::Receive)
                }
            },
            DaemonPktTypeView::Barrier(_) => StepView::quiet(
                NextView::Rendezvous(PendingView::BarrierReply),
            ),
            DaemonPktTypeView::Finalize(_) => StepView::quiet(
                NextView::Rendezvous(PendingView::FinalizeReply),
            ),
        }
    }

    /// Why a handler cannot resume at `pending`, if it cannot.
    pub open spec fn resume_refusal(self, pending: PendingView) -> Option<HandlerError> {
        match pending {
            PendingView::MutexCreation { name } => if self.has_mutex(name) {
                None
            } else {
                Some(HandlerError::UnknownMutex)
            },
            _ => None,
        }
    }

    /// The job after a handler has resumed at `pending`: the handler that
    /// leads the others empties the barrier, and nothing else changes.
    pub open spec fn resumed(self, pending: PendingView, leader: bool) -> JobModel {
        match pending {
            PendingView::BarrierReset => if leader {
                JobModel { barrier: self.barrier.reset(), ..self }
            } else {
                self
            },
            _ => self,
        }
    }

    /// What a handler sends and does next when it resumes at `pending`.
    pub open spec fn resume_step(self, pending: PendingView) -> StepView {
        match pending {
            PendingView::MutexCreation { name } => if self.mutex(name).constructed {
                StepView {
                    reply: Some(
                        DaemonReplyPktView::MutexCreationReply(MutexCreationReplyPktView { name }),
                    ),
                    ..StepView::quiet(NextView::Receive)
                }
            } else {
                StepView {
                    notice: Some(Notice::MutexNotConstructed),
                    ..StepView::quiet(NextView::Receive)
                }
            },
            PendingView::BarrierReply => if self.barrier.finished {
                StepView {
                    reply: Some(
                        DaemonReplyPktView::BarrierReply(BarrierReplyPkt { id: self.size as u32 }),
                    ),
                    ..StepView::quiet(NextView::Rendezvous(PendingView::BarrierReset))
                }
            } else {
                StepView {
                    notice: Some(Notice::BarrierNotFinished),
                    ..StepView::quiet(NextView::Rendezvous(PendingView::BarrierReset))
                }
            },
            PendingView::BarrierReset => StepView::quiet(
                NextView::Rendezvous(PendingView::BarrierDone),
            ),
            PendingView::BarrierDone => StepView::quiet(NextView::Receive),
            PendingView::FinalizeReply => if self.finalize.finished {
                StepView {
                    reply: Some(
                        DaemonReplyPktView::FinalizeReply(FinalizeReplyPkt { id: self.size as u32 }),
                    ),
                    ..StepView::quiet(NextView::Rendezvous(PendingView::FinalizeDone))
                }
            } else {
                StepView {
                    notice: Some(Notice::FinalizeNotFinished),
                    ..StepView::quiet(NextView::Rendezvous(PendingView::FinalizeDone))
                }
            },
            PendingView::FinalizeDone => StepView::quiet(NextView::Stop),
        }
    }
}

impl View for Job {
    type V = JobModel;

    open spec fn view(&self) -> JobModel {
        JobModel {
            size: self.size as nat,
            barrier: self.barrier@,
            finalize: self.finalize@,
            mutexes: self.mutexes@.map_values(|m: HeimdallrDaemonMutex| m@),
        }
    }
}

/// Among distinct names, the mutex at `i` is the one its name stands for.
pub proof fn lemma_mutex_index(job: JobModel, i: int)
    requires
        distinct_names(job.mutexes),
        0 <= i < job.mutexes.len(),
    ensures
        job.has_mutex(job.mutexes[i].name),
        job.mutex_index(job.mutexes[i].name) == i,
{
    let name = job.mutexes[i].name;
    assert(named(job.mutexes, name, i));
    let j = job.mutex_index(name);
    assert(named(job.mutexes, name, j));
    if j < i {
        assert(job.mutexes[j].name != job.mutexes[i].name);
    } else if i < j {
        assert(job.mutexes[i].name != job.mutexes[j].name);
    }
}

proof fn lemma_with_mutex(job: JobModel, i: int, mutex: MutexModel)
    requires
        job.wf(),
        0 <= i < job.mutexes.len(),
        mutex.wf(),
        mutex.size() == job.size,
        mutex.name == job.mutexes[i].name,
    ensures
        job.with_mutex(mutex.name, mutex).wf(),
        job.with_mutex(mutex.name, mutex).mutexes == job.mutexes.update(i, mutex),
{
    lemma_mutex_index(job, i);
    let after = job.with_mutex(mutex.name, mutex);
    assert forall|a: int, b: int| 0 <= a < b < after.mutexes.len() implies (
    #[trigger] after.mutexes[a]).name != (#[trigger] after.mutexes[b]).name by {
        assert(job.mutexes[a].name != job.mutexes[b].name);
    }
}

proof fn lemma_ensure_mutex(job: JobModel, name: Seq<char>, data: Seq<u8>)
    requires
        job.wf(),
    ensures
        job.ensure_mutex(name, data).wf(),
        job.ensure_mutex(name, data).has_mutex(name),
        !job.has_mutex(name) ==> job.ensure_mutex(name, data).mutex_index(name)
            == job.mutexes.len(),
{
    let after = job.ensure_mutex(name, data);
    if !job.has_mutex(name) {
        let fresh = MutexModel::start(name, job.size, data);
        assert(job.size > 0 ==> !fresh.registered[0]);
        assert(fresh.wf());
        assert forall|a: int, b: int| 0 <= a < b < after.mutexes.len() implies (
        #[trigger] after.mutexes[a]).name != (#[trigger] after.mutexes[b]).name by {
            if b == job.mutexes.len() {
                assert(!named(job.mutexes, name, a));
            } else {
                assert(job.mutexes[a].name != job.mutexes[b].name);
            }
        }
        lemma_mutex_index(after, job.mutexes.len() as int);
    }
}

impl Job {
    /// A job of `size` ranks at its start: nobody in the barrier, nobody
    /// shutting down, no mutex.
    pub fn new(size: u32) -> (job: Job)
        ensures
            job@ == JobModel::start(size as nat),
            job@.wf(),
    {
        let job = Job {
            size,
            barrier: DaemonBarrier::new(size),
            finalize: JobFinalization::new(size),
            mutexes: Vec::new(),
        };
        assert(job@.mutexes =~= Seq::<MutexModel>::empty());
        job
    }

    /// The position of the mutex called `name`, if the job has one.
    pub fn find_mutex(&self, name: &String) -> (found: Option<usize>)
        ensures
            match found {
                Some(i) => named(self@.mutexes, name@, i as int),
                None => !self@.has_mutex(name@),
            },
            self@.wf() ==> (match found {
                Some(i) => self@.has_mutex(name@) && self@.mutex_index(name@) == i,
                None => true,
            }),
    {
        let mut i: usize = 0;
        while i < self.mutexes.len()
            invariant
                i <= self.mutexes.len(),
                forall|j: int| 0 <= j < i ==> !named(self@.mutexes, name@, j),
            decreases self.mutexes.len() - i,
        {
            if self.mutexes[i].name == *name {
                proof {
                    if self@.wf() {
                        lemma_mutex_index(self@, i as int);
                    }
                }
                return Some(i);
            }
            i = i + 1;
        }
        None
    }
}

/// Serves one packet of a client.
///
/// A packet that names a rank outside the job, or a mutex that nobody has
/// created, is refused and leaves the job as it was. Joining a mutex,
/// entering the barrier and announcing the shutdown are recorded, and the
/// handler is sent to wait for the other ranks. A lock request joins the
/// waiting ranks of its mutex; a release stores the new value and frees the
/// lock; either may hand the lock on, and then the step carries the value
/// for the new owner.
pub fn handle_client(job: &mut Job, pkt: DaemonPkt) -> (result: Result<HandlerStep, HandlerError>)
    requires
        old(job)@.wf(),
    ensures
        final(job)@.wf(),
        match result {
            Ok(step) => {
                &&& old(job)@.refusal(pkt@.pkt) is None
                &&& final(job)@ == old(job)@.handled(pkt@.pkt)
                &&& step@ == old(job)@.step_for(pkt@.pkt)
            },
            Err(e) => old(job)@.refusal(pkt@.pkt) == Some(e) && final(job)@ == old(job)@,
        },
{
    match pkt.pkt {
        DaemonPktType::ClientRegistration(_) => Ok(
            HandlerStep { reply: None, delivery: None, notice: None, next: Next::Receive },
        ),
        DaemonPktType::MutexCreation(p) => {
            if p.client_id >= job.size {
                return Err(HandlerError::RankOutOfRange(p.client_id));
            }
            proof {
                lemma_ensure_mutex(job@, p.name@, p.start_data@);
            }
            let name = p.name.clone();
            let i = match job.find_mutex(&p.name) {
                Some(i) => i,
                None => {
                    let fresh = HeimdallrDaemonMutex::new(p.name.as_str(), job.size, p.start_data);
                    job.mutexes.push(fresh);
                    assert(job@.mutexes =~= old(job)@.ensure_mutex(p.name@, p.start_data@).mutexes);
                    job.mutexes.len() - 1
                },
            };
            let ghost listed = job@;
            assert(listed == old(job)@.ensure_mutex(p@.name, p@.start_data));
            assert(listed.mutex_index(p@.name) == i);
            job.mutexes[i].register_client(p.client_id);
            proof {
                let joined = listed.mutexes[i as int].register_client(p.client_id);
                lemma_with_mutex(listed, i as int, joined);
                assert(job@.mutexes =~= listed.mutexes.update(i as int, joined));
            }
            Ok(
                HandlerStep {
                    reply: None,
                    delivery: None,
                    notice: None,
                    next: Next::Rendezvous(Pending::MutexCreation { name }),
                },
            )
        },
        DaemonPktType::MutexLockReq(p) => {
            let i = match job.find_mutex(&p.name) {
                Some(i) => i,
                None => {
                    return Err(HandlerError::UnknownMutex);
                },
            };
            if p.id >= job.size {
                return Err(HandlerError::RankOutOfRange(p.id));
            }
            let delivery = job.mutexes[i].access_request(p.id);
            proof {
                let asked = old(job)@.mutexes[i as int].access_request(p.id);
                lemma_with_mutex(old(job)@, i as int, asked);
                assert(job@.mutexes =~= old(job)@.mutexes.update(i as int, asked));
            }
            Ok(HandlerStep { reply: None, delivery, notice: None, next: Next::Receive })
        },
        DaemonPktType::MutexWriteAndRelease(p) => {
            let i = match job.find_mutex(&p.mutex_name) {
                Some(i) => i,
                None => {
                    return Err(HandlerError::UnknownMutex);
                },
            };
            job.mutexes[i].write(p.data);
            let released = job.mutexes[i].release_request();
            proof {
                let freed = old(job)@.mutexes[i as int].write(p.data@).release_request();
                lemma_with_mutex(old(job)@, i as int, freed);
                assert(job@.mutexes =~= old(job)@.mutexes.update(i as int, freed));
            }
            match released {
                Ok(delivery) => Ok(
                    HandlerStep { reply: None, delivery, notice: None, next: Next::Receive },
                ),
                Err(_) => Ok(
                    HandlerStep {
                        reply: None,
                        delivery: None,
                        notice: Some(Notice::ReleaseNotLocked),
                        next: Next::Receive,
                    },
                ),
            }
        },
        DaemonPktType::Barrier(p) => {
            if p.id >= job.size {
                return Err(HandlerError::RankOutOfRange(p.id));
            }
            job.barrier.register_client(p.id);
            Ok(
                HandlerStep {
                    reply: None,
                    delivery: None,
                    notice: None,
                    next: Next::Rendezvous(Pending::BarrierReply),
                },
            )
        },
        DaemonPktType::Finalize(p) => {
            if p.id >= job.size {
                return Err(HandlerError::RankOutOfRange(p.id));
            }
            job.finalize.register_client(p.id);
            Ok(
                HandlerStep {
                    reply: None,
                    delivery: None,
                    notice: None,
                    next: Next::Rendezvous(Pending::FinalizeReply),
                },
            )
        },
    }
}

/// Resumes a handler after the handlers of all ranks have met at `pending`.
///
/// After the creation of a mutex, the barrier and the shutdown, the client
/// gets its reply if every rank has taken part, and a notice is raised if
/// not. The handler that leads the others empties the barrier for the next
/// epoch. After the shutdown has been acknowledged the handler stops.
pub fn resume_client(job: &mut Job, pending: Pending, leader: bool) -> (result: Result<
    HandlerStep,
    HandlerError,
>)
    requires
        old(job)@.wf(),
    ensures
        final(job)@.wf(),
        match result {
            Ok(step) => {
                &&& old(job)@.resume_refusal(pending@) is None
                &&& final(job)@ == old(job)@.resumed(pending@, leader)
                &&& step@ == old(job)@.resume_step(pending@)
            },
            Err(e) => old(job)@.resume_refusal(pending@) == Some(e) && final(job)@ == old(job)@,
        },
{
    match pending {
        Pending::MutexCreation { name } => {
            let i = match job.find_mutex(&name) {
                Some(i) => i,
                None => {
                    return Err(HandlerError::UnknownMutex);
                },
            };
            if job.mutexes[i].constructed {
                let reply = MutexCreationReplyPkt::new(job.mutexes[i].name.as_str());
                Ok(
                    HandlerStep {
                        reply: Some(reply),
                        delivery: None,
                        notice: None,
                        next: Next::Receive,
                    },
                )
            } else {
                Ok(
                    HandlerStep {
                        reply: None,
                        delivery: None,
                        notice: Some(Notice::MutexNotConstructed),
                        next: Next::Receive,
                    },
                )
            }
        },
        Pending::BarrierReply => {
            let next = Next::Rendezvous(Pending::BarrierReset);
            if job.barrier.finished {
                let reply = BarrierReplyPkt::new(job.size);
                Ok(HandlerStep { reply: Some(reply), delivery: None, notice: None, next })
            } else {
                Ok(
                    HandlerStep {
                        reply: None,
                        delivery: None,
                        notice: Some(Notice::BarrierNotFinished),
                        next,
                    },
                )
            }
        },
        Pending::BarrierReset => {
            if leader {
                job.barrier.reset();
            }
            Ok(
                HandlerStep {
                    reply: None,
                    delivery: None,
                    notice: None,
                    next: Next::Rendezvous(Pending::BarrierDone),
                },
            )
        },
        Pending::BarrierDone => Ok(
            HandlerStep { reply: None, delivery: None, notice: None, next: Next::Receive },
        ),
        Pending::FinalizeReply => {
            let next = Next::Rendezvous(Pending::FinalizeDone);
            if job.finalize.finished {
                let reply = FinalizeReplyPkt::new(job.size);
                Ok(HandlerStep { reply: Some(reply), delivery: None, notice: None, next })
            } else {
                Ok(
                    HandlerStep {
                        reply: None,
                        delivery: None,
                        notice: Some(Notice::FinalizeNotFinished),
                        next,
                    },
                )
            }
        },
        Pending::FinalizeDone => Ok(
            HandlerStep { reply: None, delivery: None, notice: None, next: Next::Stop },
        ),
    }
}

impl JobModel {
    /// The job after the packets `pkts` have been served, one after the
    /// other.
    pub open spec fn served_all(self, pkts: Seq<DaemonPktTypeView>) -> JobModel
        decreases pkts.len(),
    {
        if pkts.len() == 0 {
            self
        } else {
            self.served_all(pkts.drop_last()).handled(pkts.last())
        }
    }

    /// Whether `pkt` enters the barrier or announces a shutdown, for a rank
    /// of the job.
    pub open spec fn collective(self, pkt: DaemonPktTypeView) -> bool {
        match pkt {
            DaemonPktTypeView::Barrier(p) => p.id < self.size,
            DaemonPktTypeView::Finalize(p) => p.id < self.size,
            _ => false,
        }
    }
}

/// The ranks that enter the barrier with the packets `pkts`, in the order of
/// their packets.
pub open spec fn entering(pkts: Seq<DaemonPktTypeView>) -> Seq<u32>
    decreases pkts.len(),
{
    if pkts.len() == 0 {
        Seq::empty()
    } else {
        match pkts.last() {
            DaemonPktTypeView::Barrier(p) => entering(pkts.drop_last()).push(p.id),
            _ => entering(pkts.drop_last()),
        }
    }
}

/// The ranks that announce their shutdown with the packets `pkts`, in the
/// order of their packets.
pub open spec fn leaving(pkts: Seq<DaemonPktTypeView>) -> Seq<u32>
    decreases pkts.len(),
{
    if pkts.len() == 0 {
        Seq::empty()
    } else {
        match pkts.last() {
            DaemonPktTypeView::Finalize(p) => leaving(pkts.drop_last()).push(p.id),
            _ => leaving(pkts.drop_last()),
        }
    }
}

proof fn lemma_collectives_served(job: JobModel, pkts: Seq<DaemonPktTypeView>)
    requires
        job.wf(),
        forall|k: int| 0 <= k < pkts.len() ==> job.collective(#[trigger] pkts[k]),
    ensures
        job.served_all(pkts).wf(),
        job.served_all(pkts) == (JobModel {
            barrier: job.barrier.register_all(entering(pkts)),
            finalize: job.finalize.register_all(leaving(pkts)),
            ..job
        }),
        forall|k: int| 0 <= k < entering(pkts).len() ==> (#[trigger] entering(pkts)[k]) < job.size,
        forall|k: int| 0 <= k < leaving(pkts).len() ==> (#[trigger] leaving(pkts)[k]) < job.size,
    decreases pkts.len(),
{
    if pkts.len() > 0 {
        let front = pkts.drop_last();
        lemma_collectives_served(job, front);
        assert(job.collective(pkts[pkts.len() - 1]));
        match pkts.last() {
            DaemonPktTypeView::Barrier(p) => {
                lemma_marked_one_more(job.barrier.arrived, entering(front), p.id);
            },
            DaemonPktTypeView::Finalize(p) => {
                lemma_marked_one_more(job.finalize.arrived, leaving(front), p.id);
            },
            _ => {},
        }
    }
}

/// No rank leaves the barrier before all have entered: in an epoch that
/// began with an empty barrier, a handler that resumes after the packets
/// `pkts` have been served sends the barrier reply exactly if every rank of
/// the job has entered with one of them. A packet that enters the barrier or
/// announces a shutdown is never answered itself.
pub proof fn lemma_barrier_releases_after_all(job: JobModel, pkts: Seq<DaemonPktTypeView>)
    requires
        job.wf(),
        job.barrier == BarrierModel::start(job.size),
        forall|k: int| 0 <= k < pkts.len() ==> job.collective(#[trigger] pkts[k]),
    ensures
        forall|k: int|
            0 <= k < pkts.len() ==> job.served_all(pkts.subrange(0, k)).step_for(
                #[trigger] pkts[k],
            ).reply is None,
        job.served_all(pkts).resume_step(PendingView::BarrierReply).reply is Some <==> (entering(
            pkts,
        ).len() > 0 && forall|r: u32| r < job.size ==> entering(pkts).contains(r)),
        job.served_all(pkts).resume_step(PendingView::BarrierReply).reply is Some
            ==> job.served_all(pkts).resume_step(PendingView::BarrierReply).reply == Some(
            DaemonReplyPktView::BarrierReply(BarrierReplyPkt { id: job.size as u32 }),
        ),
{
    lemma_collectives_served(job, pkts);
    lemma_barrier_waits_for_all(job.size as u32, entering(pkts));
    assert forall|k: int| 0 <= k < pkts.len() implies job.served_all(pkts.subrange(0, k)).step_for(
        #[trigger] pkts[k],
    ).reply is None by {
        assert(job.collective(pkts[k]));
    }
}

/// A shutdown is answered once: the packet that announces it is not
/// answered itself; when the handlers of all ranks have met, the handler
/// sends the one reply, exactly if every rank of the job has announced its
/// shutdown; and when they meet again it stops without another word.
pub proof fn lemma_finalize_answered_once(job: JobModel, pkts: Seq<DaemonPktTypeView>)
    requires
        job.wf(),
        job.finalize == FinalizationModel::start(job.size),
        forall|k: int| 0 <= k < pkts.len() ==> job.collective(#[trigger] pkts[k]),
    ensures
        forall|k: int|
            0 <= k < pkts.len() ==> job.served_all(pkts.subrange(0, k)).step_for(
                #[trigger] pkts[k],
            ).reply is None,
        forall|k: int|
            0 <= k < pkts.len() && (#[trigger] pkts[k]) is Finalize ==> job.served_all(
                pkts.subrange(0, k),
            ).step_for(pkts[k]).next == NextView::Rendezvous(PendingView::FinalizeReply),
        job.served_all(pkts).resume_step(PendingView::FinalizeReply).reply is Some <==> (leaving(
            pkts,
        ).len() > 0 && forall|r: u32| r < job.size ==> leaving(pkts).contains(r)),
        job.served_all(pkts).resume_step(PendingView::FinalizeReply).reply is Some
            ==> job.served_all(pkts).resume_step(PendingView::FinalizeReply).reply == Some(
            DaemonReplyPktView::FinalizeReply(FinalizeReplyPkt { id: job.size as u32 }),
        ),
        job.served_all(pkts).resume_step(PendingView::FinalizeReply).next == NextView::Rendezvous(
            PendingView::FinalizeDone,
        ),
        forall|leader: bool|
            job.served_all(pkts).resumed(PendingView::FinalizeReply, leader) == job.served_all(
                pkts,
            ),
        job.served_all(pkts).resume_step(PendingView::FinalizeDone) == StepView::quiet(
            NextView::Stop,
        ),
{
    lemma_collectives_served(job, pkts);
    lemma_finalization_waits_for_all(job.size as u32, leaving(pkts));
    assert forall|k: int| 0 <= k < pkts.len() implies job.served_all(pkts.subrange(0, k)).step_for(
        #[trigger] pkts[k],
    ).reply is None by {
        assert(job.collective(pkts[k]));
    }
}

/// The handler serves a mutex as its history tells: a lock request for the
/// mutex `name` is a request in the history of that mutex, a write and
/// release is a release, the step carries what the history says is sent,
/// and no other mutex is touched. So what holds of histories of one mutex
/// holds of the packets that the handlers serve.
pub proof fn lemma_packets_are_mutex_events(job: JobModel, name: Seq<char>, event: MutexEvent)
    requires
        job.wf(),
        job.has_mutex(name),
        event matches MutexEvent::Request(id) ==> id < job.size,
    ensures
        ({
            let pkt = match event {
                MutexEvent::Request(id) => DaemonPktTypeView::MutexLockReq(
                    MutexLockReqPktView { name, id },
                ),
                MutexEvent::Release(data) => DaemonPktTypeView::MutexWriteAndRelease(
                    MutexWriteAndReleasePktView { mutex_name: name, data },
                ),
            };
            &&& job.refusal(pkt) is None
            &&& job.handled(pkt).wf()
            &&& job.handled(pkt).mutexes.len() == job.mutexes.len()
            &&& job.handled(pkt).has_mutex(name)
            &&& job.handled(pkt).mutex(name) == job.mutex(name).step(event)
            &&& job.step_for(pkt).delivery == job.mutex(name).step_delivery(event)
            &&& forall|i: int|
                0 <= i < job.mutexes.len() && i != job.mutex_index(name) ==> job.handled(
                    pkt,
                ).mutexes[i] == job.mutexes[i]
        }),
{
    let i = job.mutex_index(name);
    assert(named(job.mutexes, name, i));
    let after = job.mutexes[i].step(event);
    match event {
        MutexEvent::Request(id) => {
            assert(job.mutexes[i].access_request(id).wf()) by {
                crate::coordinator::mutex::lemma_request_keeps_order(job.mutexes[i], id);
            }
        },
        MutexEvent::Release(data) => {
            assert(job.mutexes[i].write(data).release_request().wf()) by {
                crate::coordinator::mutex::lemma_release_keeps_order(job.mutexes[i].write(data));
            }
        },
    }
    lemma_with_mutex(job, i, after);
    let served = job.with_mutex(name, after);
    lemma_mutex_index(served, i);
}

} // verus!
