//! Sharing the rows of a grid among the ranks of a job.
//!
//! A grid with the lines `0..=n` has the inner rows `1..n`. Each rank gets a
//! run of neighbouring inner rows, the lower ranks one row more where the
//! rows do not divide evenly, and keeps a copy of the row on either side of
//! its run.

use vstd::prelude::*;

verus! {

/// The share of one rank: the inner rows `from..=to`, held in a chunk of
/// `chunk_size` rows with the neighbour rows on both sides.
#[derive(Clone, Copy, Debug, PartialEq, Eq, Structural)]
pub struct ProcessData {
    pub chunk_size: u64,
    pub from: u64,
    pub to: u64,
}

/// The rows every rank gets of `n - 1` inner rows shared among `size` ranks.
pub open spec fn even_share(n: int, size: int) -> int {
    (n - 1) / size
}

/// The rows left over when every rank has its even share.
pub open spec fn left_over(n: int, size: int) -> int {
    (n - 1) % size
}

/// The first inner row of rank `id`.
pub open spec fn first_row(n: int, size: int, id: int) -> int {
    if id < left_over(n, size) {
        id * (even_share(n, size) + 1) + 1
    } else {
        id * even_share(n, size) + left_over(n, size) + 1
    }
}

/// The last inner row of rank `id`.
pub open spec fn last_row(n: int, size: int, id: int) -> int {
    if id < left_over(n, size) {
        first_row(n, size, id) + even_share(n, size)
    } else {
        first_row(n, size, id) + even_share(n, size) - 1
    }
}

impl ProcessData {
    /// The share that holds the rows `from..=to` in a chunk of `chunk_size`
    /// rows.
    pub fn new(chunk_size: u64, from: u64, to: u64) -> (data: ProcessData)
        ensures
            data == (ProcessData { chunk_size, from, to }),
    {
        ProcessData { chunk_size, from, to }
    }

    /// The share of rank `id` among `size` ranks of a grid with the lines
    /// `0..=n`.
    pub fn of_rank(n: u64, size: u32, id: u32) -> (data: ProcessData)
        requires
            1 <= n <= u64::MAX - 3,
            id < size,
        ensures
            data.from == first_row(n as int, size as int, id as int),
            data.to == last_row(n as int, size as int, id as int),
            data.chunk_size == data.to - data.from + 3,
    {
        let div: u64 = (n - 1) / (size as u64);
        let rest: u64 = (n - 1) % (size as u64);
        proof {
            lemma_share_bounds(n as int, size as int, id as int);
        }
        if (id as u64) < rest {
            let from: u64 = (id as u64) * (div + 1) + 1;
            ProcessData::new(div + 3, from, from + div)
        } else {
            let from: u64 = (id as u64) * div + rest + 1;
            ProcessData::new(div + 2, from, from + div - 1)
        }
    }
}

proof fn lemma_share_bounds(n: int, size: int, id: int)
    requires
        1 <= n,
        0 <= id < size,
    ensures
        0 <= even_share(n, size),
        0 <= left_over(n, size) < size,
        even_share(n, size) * size + left_over(n, size) == n - 1,
        0 <= id * even_share(n, size) <= n - 1 - left_over(n, size) - even_share(n, size),
        id < left_over(n, size) ==> id * (even_share(n, size) + 1) + even_share(n, size) <= n - 2,
{
    let div = even_share(n, size);
    let rest = left_over(n, size);
    assert(0 <= div && 0 <= rest < size && div * size + rest == n - 1) by (nonlinear_arith)
        requires
            div == (n - 1) / size,
            rest == (n - 1) % size,
            n >= 1,
            size > 0,
    ;
    assert(0 <= id * div <= (size - 1) * div) by (nonlinear_arith)
        requires
            0 <= id <= size - 1,
            0 <= div,
    ;
    assert((size - 1) * div == size * div - div) by (nonlinear_arith);
    assert(div * size == size * div) by (nonlinear_arith);
    if id < rest {
        assert(id * (div + 1) == id * div + id) by (nonlinear_arith);
    }
}

/// The shares tile the inner rows: rank 0 starts at row 1, every rank
/// starts where the rank before it ended, and the last rank ends at row
/// `n - 1`.
pub proof fn lemma_shares_tile(n: int, size: int, id: int)
    requires
        1 <= n,
        0 <= id < size,
    ensures
        first_row(n, size, 0) == 1,
        id + 1 < size ==> first_row(n, size, id + 1) == last_row(n, size, id) + 1,
        last_row(n, size, size - 1) == n - 1,
        first_row(n, size, id) <= last_row(n, size, id) + 1,
{
    let div = even_share(n, size);
    let rest = left_over(n, size);
    lemma_share_bounds(n, size, id);
    assert(0 * (div + 1) == 0 && 0 * div == 0) by (nonlinear_arith);
    assert((id + 1) * (div + 1) == id * (div + 1) + div + 1) by (nonlinear_arith);
    assert((id + 1) * div == id * div + div) by (nonlinear_arith);
    assert(id * (div + 1) == id * div + id) by (nonlinear_arith);
    assert((size - 1) * div == div * size - div) by (nonlinear_arith);
}

} // verus!
