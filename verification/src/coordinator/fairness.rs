//! What holds of a mutex over whole histories of requests and releases:
//! the lock is granted in the order of arrival, and the value passes from
//! holder to holder unchanged.

use vstd::prelude::*;
use vstd::bytes::*;
use crate::coordinator::mutex::{DeliveryView, MutexModel};

verus! {

/// One thing that reaches a mutex: a rank asks for the lock, or the owner
/// writes a value and gives the lock back.
pub enum MutexEvent {
    Request(u32),
    Release(Seq<u8>),
}

impl MutexModel {
    /// The mutex after one event.
    pub open spec fn step(self, event: MutexEvent) -> MutexModel {
        match event {
            MutexEvent::Request(id) => self.access_request(id),
            MutexEvent::Release(data) => self.write(data).release_request(),
        }
    }

    /// What is sent in the course of one event: the value for the rank the
    /// lock goes to, if it goes to any.
    pub open spec fn step_delivery(self, event: MutexEvent) -> Option<DeliveryView> {
        match event {
            MutexEvent::Request(id) => self.enqueue(id).hand_over(),
            MutexEvent::Release(data) => if self.locked {
                self.write(data).unlock().hand_over()
            } else {
                None
            },
        }
    }

    /// The rank the lock goes to in the course of one event, if it goes to
    /// any.
    pub open spec fn step_grant(self, event: MutexEvent) -> Option<u32> {
        match self.step_delivery(event) {
            Some(sent) => sent.owner(),
            None => None,
        }
    }

    /// The mutex after a history of events.
    pub open spec fn after_events(self, events: Seq<MutexEvent>) -> MutexModel
        decreases events.len(),
    {
        if events.len() == 0 {
            self
        } else {
            self.after_events(events.drop_last()).step(events.last())
        }
    }

    /// The ranks the lock went to in the course of a history, in the order
    /// in which it went to them.
    pub open spec fn granted_in(self, events: Seq<MutexEvent>) -> Seq<u32>
        decreases events.len(),
    {
        if events.len() == 0 {
            Seq::empty()
        } else {
            let before = self.granted_in(events.drop_last());
            match self.after_events(events.drop_last()).step_grant(events.last()) {
                Some(id) => before.push(id),
                None => before,
            }
        }
    }
}

/// The ranks that asked for the lock in the course of a history, in their
/// order of arrival.
pub open spec fn requests(events: Seq<MutexEvent>) -> Seq<u32>
    decreases events.len(),
{
    if events.len() == 0 {
        Seq::empty()
    } else {
        match events.last() {
            MutexEvent::Request(id) => requests(events.drop_last()).push(id),
            MutexEvent::Release(_) => requests(events.drop_last()),
        }
    }
}

/// The number of releases in a history.
pub open spec fn releases(events: Seq<MutexEvent>) -> nat
    decreases events.len(),
{
    if events.len() == 0 {
        0
    } else {
        match events.last() {
            MutexEvent::Request(_) => releases(events.drop_last()),
            MutexEvent::Release(_) => releases(events.drop_last()) + 1,
        }
    }
}

/// `f` applied `k` times to `v`.
pub open spec fn applied(f: spec_fn(Seq<u8>) -> Seq<u8>, k: nat, v: Seq<u8>) -> Seq<u8>
    decreases k,
{
    if k == 0 {
        v
    } else {
        f(applied(f, (k - 1) as nat, v))
    }
}

/// Whether every release of a history comes from a holder of the lock and
/// writes `f` of the value that the mutex held, which is the value the
/// holder was sent when the lock went to it.
pub open spec fn updates_by(m: MutexModel, events: Seq<MutexEvent>, f: spec_fn(Seq<u8>) -> Seq<u8>) -> bool
    decreases events.len(),
{
    if events.len() == 0 {
        true
    } else {
        &&& updates_by(m, events.drop_last(), f)
        &&& match events.last() {
            MutexEvent::Request(_) => true,
            MutexEvent::Release(data) => {
                let before = m.after_events(events.drop_last());
                before.locked && data == f(before.data)
            },
        }
    }
}

/// The lock is granted first come, first served: at any point of a history,
/// the ranks that have been granted the lock, followed by those that still
/// wait, are the ranks that waited at the start followed by those that asked
/// since, in their order of arrival.
pub proof fn lemma_grants_in_arrival_order(m: MutexModel, events: Seq<MutexEvent>)
    requires
        m.settled(),
    ensures
        m.after_events(events).settled(),
        m.granted_in(events) + m.after_events(events).queue == m.queue + requests(events),
    decreases events.len(),
{
    if events.len() == 0 {
        assert(m.granted_in(events) + m.queue =~= m.queue + requests(events));
    } else {
        let front = events.drop_last();
        lemma_grants_in_arrival_order(m, front);
        let before = m.after_events(front);
        let after = m.after_events(events);
        match events.last() {
            MutexEvent::Request(id) => {
                assert(m.granted_in(events) + after.queue =~= (m.granted_in(front) + before.queue).push(
                    id,
                ));
                assert((m.queue + requests(front)).push(id) =~= m.queue + requests(events));
            },
            MutexEvent::Release(data) => {
                assert(m.granted_in(events) + after.queue =~= m.granted_in(front) + before.queue);
            },
        }
    }
}

/// Between two releases the value of a mutex does not change, so the value
/// sent to a rank with the lock is the value the last holder wrote. If every
/// holder writes back `f` of what the mutex held, the value after a history
/// with `k` releases is `f` applied `k` times to the value at its start.
pub proof fn lemma_value_after_updates(
    m: MutexModel,
    events: Seq<MutexEvent>,
    f: spec_fn(Seq<u8>) -> Seq<u8>,
)
    requires
        updates_by(m, events, f),
    ensures
        m.after_events(events).data == applied(f, releases(events), m.data),
    decreases events.len(),
{
    if events.len() > 0 {
        lemma_value_after_updates(m, events.drop_last(), f);
    }
}

/// `g` applied `k` times to `v`.
pub open spec fn applied_to<T>(g: spec_fn(T) -> T, k: nat, v: T) -> T
    decreases k,
{
    if k == 0 {
        v
    } else {
        g(applied_to(g, (k - 1) as nat, v))
    }
}

/// What the clients see of a mutex, whatever way they write their values
/// as bytes, as long as reading undoes writing: if the mutex starts with
/// the bytes of `start`, and every holder reads the value it is sent,
/// changes it by `g` and writes the result back, then after a history with
/// `k` releases the mutex holds the bytes of `g` applied `k` times to
/// `start`, and that is the value the next holder reads.
pub proof fn lemma_values_through_codec<T>(
    m: MutexModel,
    events: Seq<MutexEvent>,
    encode: spec_fn(T) -> Seq<u8>,
    decode: spec_fn(Seq<u8>) -> T,
    g: spec_fn(T) -> T,
    start: T,
)
    requires
        forall|x: T| decode(#[trigger] encode(x)) == x,
        m.data == encode(start),
        updates_by(m, events, |bytes: Seq<u8>| encode(g(decode(bytes)))),
    ensures
        m.after_events(events).data == encode(applied_to(g, releases(events), start)),
        decode(m.after_events(events).data) == applied_to(g, releases(events), start),
    decreases events.len(),
{
    if events.len() > 0 {
        lemma_values_through_codec(m, events.drop_last(), encode, decode, g, start);
    }
}

/// A counter as the eight bytes that hold it on the wire, lowest first.
pub open spec fn counter_bytes(n: u64) -> Seq<u8> {
    spec_u64_to_le_bytes(n)
}

/// The bytes of the counter that follows the one held in `bytes`.
pub open spec fn next_counter(bytes: Seq<u8>) -> Seq<u8> {
    counter_bytes((spec_u64_from_le_bytes(bytes) + 1) as u64)
}

/// A mutex that holds the counter `start` and goes through `k` increments
/// under its lock, by whatever ranks, holds `start + k` at the end.
pub proof fn lemma_counter_increments(m: MutexModel, events: Seq<MutexEvent>, start: u64)
    requires
        m.data == counter_bytes(start),
        updates_by(m, events, |bytes: Seq<u8>| next_counter(bytes)),
        start + releases(events) <= u64::MAX,
    ensures
        m.after_events(events).data == counter_bytes((start + releases(events)) as u64),
    decreases events.len(),
{
    if events.len() > 0 {
        let front = events.drop_last();
        lemma_counter_increments(m, front, start);
        match events.last() {
            MutexEvent::Request(_) => {},
            MutexEvent::Release(data) => {
                let held = (start + releases(front)) as u64;
                lemma_auto_spec_u64_to_from_le_bytes();
                assert(spec_u64_from_le_bytes(spec_u64_to_le_bytes(held)) == held);
            },
        }
    }
}

} // verus!
