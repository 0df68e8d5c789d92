//! A named mutex as the coordinator keeps it: the canonical value, the
//! ranks that wait for the lock in their order of arrival, and the rank that
//! holds it.

use std::collections::VecDeque;
use vstd::prelude::*;
use vstd::string::*;
use crate::coordinator::{all_marked, blank_roll, every_marked, new_roll};

verus! {

/// The coordinator's record of one named mutex.
#[derive(Clone, Debug, PartialEq, Eq)]
pub struct HeimdallrDaemonMutex {
    pub name: String,
    pub registered: Vec<bool>,
    pub constructed: bool,
    pub data: Vec<u8>,
    pub access_queue: VecDeque<u32>,
    pub locked: bool,
    pub current_owner: Option<u32>,
}

/// What happens to the value of a mutex when its lock is handed on.
#[derive(Clone, Debug, PartialEq, Eq)]
pub enum Delivery {
    /// The value goes to the new owner over its control connection.
    Data { owner: u32, data: Vec<u8> },
    /// The new owner never joined the mutex, so there is no connection to
    /// send the value on.
    NoStream { owner: u32 },
    /// The mutex has no owner to send the value to.
    NoOwner,
}

/// A release that found the mutex unlocked.
#[derive(Clone, Copy, Debug, PartialEq, Eq, Structural)]
pub struct NotLocked;

/// A mutex as plain mathematics.
pub struct MutexModel {
    pub name: Seq<char>,
    pub registered: Seq<bool>,
    pub constructed: bool,
    pub data: Seq<u8>,
    pub queue: Seq<u32>,
    pub locked: bool,
    pub owner: Option<u32>,
}

/// Where a mutex stands in its life.
pub enum MutexPhase {
    /// Some rank has not joined yet.
    UnderConstruction,
    /// All ranks have joined and the lock is free.
    Idle,
    /// All ranks have joined and this rank holds the lock.
    Held(u32),
}

pub enum DeliveryView {
    Data { owner: u32, data: Seq<u8> },
    NoStream { owner: u32 },
    NoOwner,
}

impl DeliveryView {
    /// The rank the value is meant for, if it is meant for any.
    pub open spec fn owner(self) -> Option<u32> {
        match self {
            DeliveryView::Data { owner, .. } => Some(owner),
            DeliveryView::NoStream { owner } => Some(owner),
            DeliveryView::NoOwner => None,
        }
    }
}

impl View for Delivery {
    type V = DeliveryView;

    open spec fn view(&self) -> DeliveryView {
        match *self {
            Delivery::Data { owner, data } => DeliveryView::Data { owner, data: data@ },
            Delivery::NoStream { owner } => DeliveryView::NoStream { owner },
            Delivery::NoOwner => DeliveryView::NoOwner,
        }
    }
}

/// The view of an optional delivery.
pub open spec fn delivery_view(d: Option<Delivery>) -> Option<DeliveryView> {
    match d {
        Some(d) => Some(d@),
        None => None,
    }
}

impl MutexModel {
    /// The number of ranks of the job.
    pub open spec fn size(self) -> nat {
        self.registered.len()
    }

    /// Nobody waits for a mutex that is free.
    pub open spec fn settled(self) -> bool {
        !self.locked ==> self.queue.len() == 0
    }

    /// The mutex is constructed exactly when all ranks have joined; it is
    /// locked exactly when it has an owner; the owner and the waiting ranks
    /// are ranks of the job; nobody waits for a mutex that is free.
    pub open spec fn wf(self) -> bool {
        &&& self.constructed == (self.size() > 0 && all_marked(self.registered))
        &&& self.locked == self.owner.is_some()
        &&& (self.owner matches Some(o) ==> o < self.size())
        &&& forall|i: int| 0 <= i < self.queue.len() ==> (#[trigger] self.queue[i]) < self.size()
        &&& self.settled()
    }

    /// At most one outstanding request per rank: the owner does not wait,
    /// and no rank waits twice.
    pub open spec fn exclusive(self) -> bool {
        &&& (self.owner matches Some(o) ==> !self.queue.contains(o))
        &&& self.queue.no_duplicates()
    }

    /// Whether rank `id` holds the lock or waits for it.
    pub open spec fn engaged(self, id: u32) -> bool {
        self.owner == Some(id) || self.queue.contains(id)
    }

    /// Where the mutex stands in its life.
    pub open spec fn phase(self) -> MutexPhase {
        if !self.constructed {
            MutexPhase::UnderConstruction
        } else {
            match self.owner {
                Some(id) => MutexPhase::Held(id),
                None => MutexPhase::Idle,
            }
        }
    }

    /// The mutex `name` of a job of `size` ranks, holding `data`, before any
    /// rank has joined.
    pub open spec fn start(name: Seq<char>, size: nat, data: Seq<u8>) -> MutexModel {
        MutexModel {
            name,
            registered: blank_roll(size),
            constructed: false,
            data,
            queue: Seq::empty(),
            locked: false,
            owner: None,
        }
    }

    /// The mutex after rank `id` has joined.
    pub open spec fn register_client(self, id: u32) -> MutexModel {
        let registered = self.registered.update(id as int, true);
        MutexModel { registered, constructed: all_marked(registered), ..self }
    }

    /// Whether the lock is free while somebody waits for it.
    pub open spec fn grants(self) -> bool {
        !self.locked && self.queue.len() > 0
    }

    /// The mutex after the lock has gone to the rank that waited longest, if
    /// the lock is free and anybody waits.
    pub open spec fn grant_next_lock(self) -> MutexModel {
        if self.grants() {
            MutexModel {
                owner: Some(self.queue[0]),
                queue: self.queue.subrange(1, self.queue.len() as int),
                locked: true,
                ..self
            }
        } else {
            self
        }
    }

    /// The mutex with rank `id` added behind those that wait.
    pub open spec fn enqueue(self, id: u32) -> MutexModel {
        MutexModel { queue: self.queue.push(id), ..self }
    }

    /// The mutex after rank `id` has asked for the lock.
    pub open spec fn access_request(self, id: u32) -> MutexModel {
        self.enqueue(id).grant_next_lock()
    }

    /// The mutex holding `data`.
    pub open spec fn write(self, data: Seq<u8>) -> MutexModel {
        MutexModel { data, ..self }
    }

    /// The mutex without an owner.
    pub open spec fn unlock(self) -> MutexModel {
        MutexModel { locked: false, owner: None, ..self }
    }

    /// The mutex after its owner has given the lock back.
    pub open spec fn release_request(self) -> MutexModel {
        if self.locked {
            self.unlock().grant_next_lock()
        } else {
            self
        }
    }

    /// Where the value goes when it is sent to the current owner.
    pub open spec fn send_data(self) -> DeliveryView {
        match self.owner {
            Some(id) => if 0 <= id < self.size() && self.registered[id as int] {
                DeliveryView::Data { owner: id, data: self.data }
            } else {
                DeliveryView::NoStream { owner: id }
            },
            None => DeliveryView::NoOwner,
        }
    }

    /// What is sent when the lock is handed on: nothing if it is not.
    pub open spec fn hand_over(self) -> Option<DeliveryView> {
        if self.grants() {
            Some(self.grant_next_lock().send_data())
        } else {
            None
        }
    }
}

impl View for HeimdallrDaemonMutex {
    type V = MutexModel;

    open spec fn view(&self) -> MutexModel {
        MutexModel {
            name: self.name@,
            registered: self.registered@,
            constructed: self.constructed,
            data: self.data@,
            queue: self.access_queue@,
            locked: self.locked,
            owner: self.current_owner,
        }
    }
}

impl HeimdallrDaemonMutex {
    /// The mutex `name` of a job of `size` ranks, holding `start_data`,
    /// before any rank has joined.
    pub fn new(name: &str, size: u32, start_data: Vec<u8>) -> (mutex: HeimdallrDaemonMutex)
        ensures
            mutex@ == MutexModel::start(name@, size as nat, start_data@),
            mutex@.wf(),
    {
        let registered = new_roll(size);
        assert(size > 0 ==> !registered@[0]);
        HeimdallrDaemonMutex {
            name: String::from_str(name),
            registered,
            constructed: false,
            data: start_data,
            access_queue: VecDeque::new(),
            locked: false,
            current_owner: None,
        }
    }

    /// Records that rank `id` has joined the mutex. The mutex is constructed
    /// as soon as every rank has, and stays so.
    pub fn register_client(&mut self, id: u32)
        requires
            old(self)@.wf(),
            id < old(self)@.size(),
        ensures
            final(self)@ == old(self)@.register_client(id),
            final(self)@.wf(),
            old(self).constructed ==> final(self).constructed,
    {
        self.registered.set(id as usize, true);
        self.constructed = every_marked(&self.registered);
    }

    /// Takes the request of rank `client_id` for the lock: the rank joins
    /// the waiting ranks, and the lock is handed on if it is free.
    pub fn access_request(&mut self, client_id: u32) -> (sent: Option<Delivery>)
        requires
            old(self)@.wf(),
            client_id < old(self)@.size(),
        ensures
            final(self)@ == old(self)@.access_request(client_id),
            final(self)@.wf(),
            final(self).locked,
            delivery_view(sent) == old(self)@.enqueue(client_id).hand_over(),
            old(self)@.exclusive() && !old(self)@.engaged(client_id) ==> final(self)@.exclusive(),
    {
        proof {
            lemma_request_keeps_order(self@, client_id);
        }
        self.access_queue.push_back(client_id);
        self.grant_next_lock()
    }

    /// Replaces the value of the mutex.
    pub fn write(&mut self, data: Vec<u8>)
        ensures
            final(self)@ == old(self)@.write(data@),
    {
        self.data = data;
    }

    /// Takes the lock back from its owner and hands it on to the rank that
    /// waited longest, if any. A mutex that is not locked is left as it is.
    pub fn release_request(&mut self) -> (sent: Result<Option<Delivery>, NotLocked>)
        requires
            old(self)@.wf(),
        ensures
            final(self)@ == old(self)@.release_request(),
            final(self)@.wf(),
            match sent {
                Ok(d) => old(self).locked && delivery_view(d) == old(self)@.unlock().hand_over(),
                Err(_) => !old(self).locked,
            },
            old(self)@.exclusive() ==> final(self)@.exclusive(),
    {
        if self.locked {
            proof {
                lemma_release_keeps_order(self@);
            }
            self.locked = false;
            self.current_owner = None;
            Ok(self.grant_next_lock())
        } else {
            Err(NotLocked)
        }
    }

    /// Hands the lock to the rank that waited longest, if the lock is free
    /// and anybody waits, and says where the value goes.
    pub fn grant_next_lock(&mut self) -> (sent: Option<Delivery>)
        ensures
            final(self)@ == old(self)@.grant_next_lock(),
            delivery_view(sent) == old(self)@.hand_over(),
    {
        if !self.locked && self.access_queue.len() > 0 {
            self.current_owner = self.access_queue.pop_front();
            self.locked = true;
            assert(self.current_owner == Some(old(self)@.queue[0]));
            Some(self.send_data())
        } else {
            None
        }
    }

    /// Says where the value goes when it is sent to the current owner.
    pub fn send_data(&self) -> (sent: Delivery)
        ensures
            sent@ == self@.send_data(),
    {
        match self.current_owner {
            Some(id) => {
                if (id as usize) < self.registered.len() && self.registered[id as usize] {
                    Delivery::Data { owner: id, data: self.data.clone() }
                } else {
                    Delivery::NoStream { owner: id }
                }
            },
            None => Delivery::NoOwner,
        }
    }
}

/// A request leaves the mutex in order and locked; it keeps the waiting
/// ranks distinct from each other and from the owner if the rank that asks
/// neither holds the lock nor waits for it.
pub proof fn lemma_request_keeps_order(m: MutexModel, id: u32)
    requires
        m.wf(),
        id < m.size(),
    ensures
        m.access_request(id).wf(),
        m.access_request(id).locked,
        m.exclusive() && !m.engaged(id) ==> m.access_request(id).exclusive(),
{
    let pushed = m.enqueue(id);
    let after = m.access_request(id);
    assert forall|i: int| 0 <= i < after.queue.len() implies (#[trigger] after.queue[i])
        < after.size() by {
        if pushed.grants() {
            assert(after.queue[i] == pushed.queue[i + 1]);
        }
        let j = if pushed.grants() { i + 1 } else { i };
        if j < m.queue.len() {
            assert(pushed.queue[j] == m.queue[j]);
        }
    }
    if pushed.grants() {
        assert(pushed.queue[0] == id);
        assert(after.queue =~= Seq::<u32>::empty());
    }
    if m.exclusive() && !m.engaged(id) {
        if !pushed.grants() {
            assert forall|i: int, j: int|
                0 <= i < after.queue.len() && 0 <= j < after.queue.len() && i != j implies after.queue[i]
                != after.queue[j] by {
                if i < m.queue.len() && j < m.queue.len() {
                } else if i < m.queue.len() {
                    assert(m.queue.contains(m.queue[i]));
                } else if j < m.queue.len() {
                    assert(m.queue.contains(m.queue[j]));
                }
            }
            if m.owner is Some && after.queue.contains(m.owner->0) {
                let k = choose|k: int| 0 <= k < after.queue.len() && after.queue[k] == m.owner->0;
                if k < m.queue.len() {
                    assert(m.queue.contains(m.queue[k]));
                }
            }
        }
    }
}

/// A release leaves the mutex in order, and the waiting ranks distinct from
/// each other and from the owner if they were so.
pub proof fn lemma_release_keeps_order(m: MutexModel)
    requires
        m.wf(),
    ensures
        m.release_request().wf(),
        m.exclusive() ==> m.release_request().exclusive(),
{
    let free = m.unlock();
    let after = m.release_request();
    if free.grants() {
        assert(free.queue[0] < m.size());
        assert forall|i: int| 0 <= i < after.queue.len() implies (#[trigger] after.queue[i])
            < after.size() by {
            assert(after.queue[i] == m.queue[i + 1]);
        }
        if m.exclusive() {
            assert forall|i: int, j: int|
                0 <= i < after.queue.len() && 0 <= j < after.queue.len() && i != j implies after.queue[i]
                != after.queue[j] by {
                assert(after.queue[i] == m.queue[i + 1]);
                assert(after.queue[j] == m.queue[j + 1]);
            }
            if after.queue.contains(m.queue[0]) {
                let k = choose|k: int| 0 <= k < after.queue.len() && after.queue[k] == m.queue[0];
                assert(after.queue[k] == m.queue[k + 1]);
            }
        }
    }
}

/// The life of a mutex: it is under construction until the last rank has
/// joined; a request finds it idle and leaves it held by the rank that
/// asked, which is sent the value; a request that finds it held leaves it
/// held by the same rank and waits behind the others; a release leaves it
/// idle if nobody waits, and else held by the rank that waited longest,
/// which is sent the value.
pub proof fn lemma_mutex_phases(m: MutexModel, id: u32)
    requires
        m.wf(),
        id < m.size(),
    ensures
        MutexModel::start(m.name, m.size(), m.data).phase() == MutexPhase::UnderConstruction,
        m.register_client(id).phase() != MutexPhase::UnderConstruction <==> all_marked(
            m.registered.update(id as int, true),
        ),
        m.phase() != MutexPhase::UnderConstruction ==> m.register_client(id).phase() == m.phase(),
        m.phase() == MutexPhase::Idle ==> {
            &&& m.access_request(id).phase() == MutexPhase::Held(id)
            &&& m.access_request(id).queue.len() == 0
            &&& m.enqueue(id).hand_over() == Some(DeliveryView::Data { owner: id, data: m.data })
            &&& m.release_request() == m
        },
        m.phase() matches MutexPhase::Held(holder) ==> {
            &&& m.access_request(id).phase() == MutexPhase::Held(holder)
            &&& m.access_request(id).queue == m.queue.push(id)
            &&& m.enqueue(id).hand_over() is None
            &&& (m.queue.len() == 0 ==> m.release_request().phase() == MutexPhase::Idle
                && m.unlock().hand_over() is None)
            &&& (m.queue.len() > 0 ==> m.release_request().phase() == MutexPhase::Held(m.queue[0])
                && m.release_request().queue == m.queue.subrange(1, m.queue.len() as int)
                && m.unlock().hand_over() == Some(
                DeliveryView::Data { owner: m.queue[0], data: m.data },
            ))
        },
{
    assert(m.size() > 0);
    if m.phase() != MutexPhase::UnderConstruction {
        assert(m.registered.update(id as int, true) =~= m.registered);
        assert(m.registered[id as int]);
        if m.queue.len() > 0 {
            assert(m.queue[0] < m.size());
            assert(m.registered[m.queue[0] as int]);
        }
    }
    if m.phase() == MutexPhase::Idle {
        assert(m.enqueue(id).queue[0] == id);
        assert(m.access_request(id).queue =~= Seq::<u32>::empty());
    }
}

} // verus!
