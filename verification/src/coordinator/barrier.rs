//! The global barrier of a job.

use vstd::prelude::*;
use crate::coordinator::{
    all_marked, blank_roll, every_marked, lemma_marked_one_more, lemma_roll_waits_for_all, marked_with,
    new_roll,
};

verus! {

/// The barrier of a job of `size` ranks: who has entered the current epoch,
/// and whether all have.
#[derive(Clone, Debug, PartialEq, Eq)]
pub struct DaemonBarrier {
    pub size: u32,
    pub arrived: Vec<bool>,
    pub finished: bool,
}

/// A barrier as plain mathematics.
pub struct BarrierModel {
    pub size: nat,
    pub arrived: Seq<bool>,
    pub finished: bool,
}

impl BarrierModel {
    /// One flag per rank, and `finished` exactly when all of them are set.
    pub open spec fn wf(self) -> bool {
        &&& self.arrived.len() == self.size
        &&& self.finished == (self.size > 0 && all_marked(self.arrived))
    }

    /// The barrier of a job of `size` ranks before anyone has entered.
    pub open spec fn start(size: nat) -> BarrierModel {
        BarrierModel { size, arrived: blank_roll(size), finished: false }
    }

    /// The barrier after rank `id` has entered.
    pub open spec fn register_client(self, id: u32) -> BarrierModel {
        let arrived = self.arrived.update(id as int, true);
        BarrierModel { size: self.size, arrived, finished: all_marked(arrived) }
    }

    /// The barrier made ready for its next epoch.
    pub open spec fn reset(self) -> BarrierModel {
        BarrierModel::start(self.size)
    }

    /// The barrier after the ranks `ids` have entered, one after the other.
    pub open spec fn register_all(self, ids: Seq<u32>) -> BarrierModel {
        if ids.len() == 0 {
            self
        } else {
            let arrived = marked_with(self.arrived, ids);
            BarrierModel { size: self.size, arrived, finished: all_marked(arrived) }
        }
    }
}

impl View for DaemonBarrier {
    type V = BarrierModel;

    open spec fn view(&self) -> BarrierModel {
        BarrierModel { size: self.size as nat, arrived: self.arrived@, finished: self.finished }
    }
}

impl DaemonBarrier {
    /// The barrier of a job of `size` ranks before anyone has entered.
    pub fn new(size: u32) -> (barrier: DaemonBarrier)
        ensures
            barrier@ == BarrierModel::start(size as nat),
            barrier@.wf(),
    {
        let arrived = new_roll(size);
        assert(size > 0 ==> !arrived@[0]);
        DaemonBarrier { size, arrived, finished: false }
    }

    /// Records that rank `id` has entered the barrier. The barrier is
    /// finished as soon as every rank has.
    pub fn register_client(&mut self, id: u32)
        requires
            old(self)@.wf(),
            id < old(self).size,
        ensures
            final(self)@ == old(self)@.register_client(id),
            final(self)@.wf(),
    {
        self.arrived.set(id as usize, true);
        self.finished = every_marked(&self.arrived);
    }

    /// Empties the barrier for the next epoch.
    pub fn reset(&mut self)
        ensures
            final(self)@ == old(self)@.reset(),
            final(self)@.wf(),
    {
        self.arrived = new_roll(self.size);
        self.finished = false;
        assert(self.size > 0 ==> !self.arrived@[0]);
    }
}

/// No rank is released before all have entered: starting from an empty
/// barrier, the epoch is finished exactly when every rank of the job occurs
/// among the ranks that have entered.
pub proof fn lemma_barrier_waits_for_all(size: u32, ids: Seq<u32>)
    requires
        forall|k: int| 0 <= k < ids.len() ==> (#[trigger] ids[k]) < size,
    ensures
        BarrierModel::start(size as nat).register_all(ids).wf(),
        BarrierModel::start(size as nat).register_all(ids).finished <==> (ids.len() > 0 && forall|r: u32|
            r < size ==> ids.contains(r)),
{
    lemma_roll_waits_for_all(size, ids);
}

/// Ranks register one after the other: with no rank the barrier is as it
/// was, and with one rank more it is what `register_client` makes of it.
pub proof fn lemma_register_all_steps(start: BarrierModel, ids: Seq<u32>, id: u32)
    ensures
        start.register_all(Seq::empty()) == start,
        start.register_all(ids.push(id)) == start.register_all(ids).register_client(id),
{
    lemma_marked_one_more(start.arrived, ids, id);
}

} // verus!
