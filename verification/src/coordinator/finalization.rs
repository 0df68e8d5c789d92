//! The shutdown rendezvous of a job.

use vstd::prelude::*;
use crate::coordinator::{
    all_marked, blank_roll, every_marked, lemma_marked_one_more, lemma_roll_waits_for_all, marked_with,
    new_roll,
};

verus! {

/// Who has announced its shutdown, and whether all have.
#[derive(Clone, Debug, PartialEq, Eq)]
pub struct JobFinalization {
    pub arrived: Vec<bool>,
    pub finished: bool,
}

/// A shutdown rendezvous as plain mathematics.
pub struct FinalizationModel {
    pub arrived: Seq<bool>,
    pub finished: bool,
}

impl FinalizationModel {
    /// `finished` exactly when the job has ranks and all of them have
    /// announced their shutdown.
    pub open spec fn wf(self) -> bool {
        self.finished == (self.arrived.len() > 0 && all_marked(self.arrived))
    }

    /// The rendezvous of a job of `size` ranks before any announcement.
    pub open spec fn start(size: nat) -> FinalizationModel {
        FinalizationModel { arrived: blank_roll(size), finished: false }
    }

    /// The rendezvous after rank `id` has announced its shutdown.
    pub open spec fn register_client(self, id: u32) -> FinalizationModel {
        let arrived = self.arrived.update(id as int, true);
        FinalizationModel { arrived, finished: all_marked(arrived) }
    }

    /// The rendezvous after the ranks `ids` have announced their shutdown,
    /// one after the other.
    pub open spec fn register_all(self, ids: Seq<u32>) -> FinalizationModel {
        if ids.len() == 0 {
            self
        } else {
            let arrived = marked_with(self.arrived, ids);
            FinalizationModel { arrived, finished: all_marked(arrived) }
        }
    }
}

impl View for JobFinalization {
    type V = FinalizationModel;

    open spec fn view(&self) -> FinalizationModel {
        FinalizationModel { arrived: self.arrived@, finished: self.finished }
    }
}

impl JobFinalization {
    /// The rendezvous of a job of `size` ranks before any announcement.
    pub fn new(size: u32) -> (finalization: JobFinalization)
        ensures
            finalization@ == FinalizationModel::start(size as nat),
            finalization@.wf(),
    {
        let arrived = new_roll(size);
        assert(size > 0 ==> !arrived@[0]);
        JobFinalization { arrived, finished: false }
    }

    /// Records that rank `id` has announced its shutdown.
    pub fn register_client(&mut self, id: u32)
        requires
            old(self)@.wf(),
            id < old(self)@.arrived.len(),
        ensures
            final(self)@ == old(self)@.register_client(id),
            final(self)@.wf(),
    {
        self.arrived.set(id as usize, true);
        self.finished = every_marked(&self.arrived);
    }
}

/// The shutdown is finished exactly when every rank of the job occurs among
/// the ranks that have announced it.
pub proof fn lemma_finalization_waits_for_all(size: u32, ids: Seq<u32>)
    requires
        forall|k: int| 0 <= k < ids.len() ==> (#[trigger] ids[k]) < size,
    ensures
        FinalizationModel::start(size as nat).register_all(ids).wf(),
        FinalizationModel::start(size as nat).register_all(ids).finished <==> (ids.len() > 0 && forall|r: u32|
            r < size ==> ids.contains(r)),
{
    lemma_roll_waits_for_all(size, ids);
}

/// Ranks register one after the other: with no rank the rendezvous is as it
/// was, and with one rank more it is what `register_client` makes of it.
pub proof fn lemma_register_all_steps(start: FinalizationModel, ids: Seq<u32>, id: u32)
    ensures
        start.register_all(Seq::empty()) == start,
        start.register_all(ids.push(id)) == start.register_all(ids).register_client(id),
{
    lemma_marked_one_more(start.arrived, ids, id);
}

} // verus!
