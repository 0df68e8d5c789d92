//! The coordinator's side of the protocol: registration of a job, its
//! barrier, its named mutexes and its shutdown.

use vstd::prelude::*;

pub mod barrier;
pub mod finalization;
pub mod mutex;
pub mod fairness;
pub mod registration;
pub mod job;
pub mod daemon;

verus! {

/// Whether every rank of a roll has been marked.
pub open spec fn all_marked(roll: Seq<bool>) -> bool {
    forall|i: int| 0 <= i < roll.len() ==> #[trigger] roll[i]
}

/// A roll of `size` ranks, none of them marked.
pub open spec fn blank_roll(size: nat) -> Seq<bool> {
    Seq::new(size, |i: int| false)
}

/// The roll after the ranks `ids` have been marked in it, one after the
/// other.
pub open spec fn marked_with(roll: Seq<bool>, ids: Seq<u32>) -> Seq<bool>
    decreases ids.len(),
{
    if ids.len() == 0 {
        roll
    } else {
        marked_with(roll, ids.drop_last()).update(ids.last() as int, true)
    }
}

/// A rank is marked after `ids` exactly if it was marked before or occurs
/// in `ids`.
pub proof fn lemma_marked_with(roll: Seq<bool>, ids: Seq<u32>)
    requires
        forall|k: int| 0 <= k < ids.len() ==> (#[trigger] ids[k]) < roll.len(),
    ensures
        marked_with(roll, ids).len() == roll.len(),
        forall|r: int|
            0 <= r < roll.len() ==> (#[trigger] marked_with(roll, ids)[r] <==> (roll[r]
                || exists|k: int| 0 <= k < ids.len() && #[trigger] ids[k] == r)),
    decreases ids.len(),
{
    if ids.len() > 0 {
        let front = ids.drop_last();
        lemma_marked_with(roll, front);
        assert forall|r: int| 0 <= r < roll.len() implies (#[trigger] marked_with(roll, ids)[r] <==> (
        roll[r] || exists|k: int| 0 <= k < ids.len() && #[trigger] ids[k] == r)) by {
            if marked_with(roll, ids)[r] {
                if r == ids.last() {
                    assert(ids[ids.len() - 1] == r);
                } else if !roll[r] {
                    let k = choose|k: int| 0 <= k < front.len() && #[trigger] front[k] == r;
                    assert(ids[k] == r);
                }
            }
            if exists|k: int| 0 <= k < ids.len() && #[trigger] ids[k] == r {
                let k = choose|k: int| 0 <= k < ids.len() && #[trigger] ids[k] == r;
                if k < front.len() {
                    assert(front[k] == r);
                }
            }
        }
    }
}

/// Marking one more rank is one more step: the roll after `ids` and then
/// `id` is the roll after `ids` with `id` marked.
pub proof fn lemma_marked_one_more(roll: Seq<bool>, ids: Seq<u32>, id: u32)
    ensures
        marked_with(roll, ids.push(id)) == marked_with(roll, ids).update(id as int, true),
{
    assert(ids.push(id).drop_last() =~= ids);
}

/// A roll that started blank is full exactly when every rank of the job
/// occurs among the ranks that were marked in it.
pub proof fn lemma_roll_waits_for_all(size: u32, ids: Seq<u32>)
    requires
        forall|k: int| 0 <= k < ids.len() ==> (#[trigger] ids[k]) < size,
    ensures
        marked_with(blank_roll(size as nat), ids).len() == size,
        ids.len() == 0 ==> marked_with(blank_roll(size as nat), ids) == blank_roll(size as nat),
        (size > 0 && all_marked(marked_with(blank_roll(size as nat), ids))) <==> (ids.len() > 0
            && forall|r: u32| r < size ==> ids.contains(r)),
{
    let blank = blank_roll(size as nat);
    let end = marked_with(blank, ids);
    lemma_marked_with(blank, ids);
    if ids.len() > 0 {
        assert(ids[0] < size);
        if all_marked(end) {
            assert forall|r: u32| r < size implies ids.contains(r) by {
                assert(end[r as int]);
                assert(!blank[r as int]);
                let k = choose|k: int| 0 <= k < ids.len() && #[trigger] ids[k] == r as int;
                assert(ids[k] == r);
            }
        }
        if forall|r: u32| r < size ==> ids.contains(r) {
            assert forall|i: int| 0 <= i < end.len() implies #[trigger] end[i] by {
                let r = i as u32;
                assert(ids.contains(r));
                let k = choose|k: int| 0 <= k < ids.len() && ids[k] == r;
                assert(ids[k] == i);
            }
        }
    } else if size > 0 {
        assert(!blank[0]);
    }
}

/// A fresh roll of `size` ranks.
pub(crate) fn new_roll(size: u32) -> (roll: Vec<bool>)
    ensures
        roll@ == blank_roll(size as nat),
{
    let mut roll: Vec<bool> = Vec::new();
    let mut i: u32 = 0;
    while i < size
        invariant
            i <= size,
            roll@ == blank_roll(i as nat),
        decreases size - i,
    {
        roll.push(false);
        i = i + 1;
        assert(roll@ =~= blank_roll(i as nat));
    }
    roll
}

/// Whether every rank of `roll` is marked.
pub(crate) fn every_marked(roll: &Vec<bool>) -> (all: bool)
    ensures
        all == all_marked(roll@),
{
    let mut i: usize = 0;
    while i < roll.len()
        invariant
            i <= roll.len(),
            forall|j: int| 0 <= j < i ==> #[trigger] roll@[j],
        decreases roll.len() - i,
    {
        if !roll[i] {
            return false;
        }
        i = i + 1;
    }
    true
}

} // verus!
