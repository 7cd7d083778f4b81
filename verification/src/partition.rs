//! The split of the requested rows into one contiguous range per worker.

use vstd::arithmetic::div_mod::lemma_fundamental_div_mod;
use vstd::prelude::*;

verus! {

/// Below this many rows a single worker does all the work.
pub const SPLIT_MIN_LINES: u32 = 100;

/// A worker's share must exceed this many rows, or a single worker does all
/// the work.
pub const SPLIT_MIN_SHARE: u32 = 10;

/// A contiguous range of row indices: from `start` up to, and without,
/// `end`.
#[derive(Clone, Copy, Debug, PartialEq, Eq, Structural)]
pub struct RowRange {
    pub start: u32,
    pub end: u32,
}

/// The number of workers that take part when `threads` are asked for: one
/// where there are fewer than 100 rows or a worker's share would not exceed
/// 10 rows, else as many as asked for.
pub open spec fn worker_count(lines: nat, threads: nat) -> nat {
    if lines < SPLIT_MIN_LINES || lines / threads <= SPLIT_MIN_SHARE {
        1
    } else {
        threads
    }
}

/// The rows that every worker but the last takes.
pub open spec fn share(lines: nat, workers: nat) -> nat {
    lines / workers
}

/// The first row of worker `index`.
pub open spec fn range_start(lines: nat, workers: nat, index: nat) -> nat {
    index * share(lines, workers)
}

/// The row behind the last row of worker `index`. The last worker's range
/// reaches to the end and so takes in the remainder.
pub open spec fn range_end(lines: nat, workers: nat, index: nat) -> nat {
    if index + 1 == workers {
        lines
    } else {
        (index + 1) * share(lines, workers)
    }
}

/// Whether `row` lies in the range of worker `index`.
pub open spec fn owns(lines: nat, workers: nat, index: nat, row: nat) -> bool {
    range_start(lines, workers, index) <= row < range_end(lines, workers, index)
}

/// The ranges of `workers` workers over `lines` rows, in worker order.
pub open spec fn ranges(lines: nat, workers: nat) -> Seq<RowRange> {
    Seq::new(
        workers,
        |i: int|
            RowRange {
                start: range_start(lines, workers, i as nat) as u32,
                end: range_end(lines, workers, i as nat) as u32,
            },
    )
}

/// No range starts or ends beyond the last row, and none ends before it
/// starts.
pub proof fn lemma_range_bounds(lines: nat, workers: nat, index: nat)
    requires
        index < workers,
    ensures
        range_start(lines, workers, index) <= range_end(lines, workers, index) <= lines,
        index + 1 < workers ==> range_end(lines, workers, index) - range_start(
            lines,
            workers,
            index,
        ) == share(lines, workers),
{
    let base = share(lines, workers);
    lemma_fundamental_div_mod(lines as int, workers as int);
    assert(index * base <= (index + 1) * base && (index + 1) * base - index * base == base)
        by (nonlinear_arith);
    assert((index + 1) * base <= workers * base) by (nonlinear_arith)
        requires
            index + 1 <= workers,
    ;
    assert(workers * base <= lines) by (nonlinear_arith)
        requires
            lines == workers * base + lines % workers,
            workers > 0,
    ;
}

/// The ranges cover the rows `0..lines` without gap or overlap: the first
/// range starts at row 0, every range starts where the one before it ends,
/// and the last range ends at `lines`. Every worker but the last has
/// `lines / workers` rows; the last has those and the remainder.
pub proof fn lemma_partition_covers(lines: nat, workers: nat)
    requires
        workers >= 1,
    ensures
        range_start(lines, workers, 0) == 0,
        range_end(lines, workers, (workers - 1) as nat) == lines,
        forall|i: nat|
            i + 1 < workers ==> #[trigger] range_end(lines, workers, i) == range_start(
                lines,
                workers,
                i + 1,
            ),
        forall|i: nat|
            i < workers ==> #[trigger] range_start(lines, workers, i) <= range_end(
                lines,
                workers,
                i,
            ),
        forall|i: nat|
            i + 1 < workers ==> range_end(lines, workers, i) - #[trigger] range_start(
                lines,
                workers,
                i,
            ) == lines / workers,
        range_end(lines, workers, (workers - 1) as nat) - range_start(
            lines,
            workers,
            (workers - 1) as nat,
        ) == lines / workers + lines % workers,
{
    let base = share(lines, workers);
    assert(0 * base == 0) by (nonlinear_arith);
    assert forall|i: nat| i < workers implies #[trigger] range_start(lines, workers, i)
        <= range_end(lines, workers, i) by {
        lemma_range_bounds(lines, workers, i);
    }
    assert forall|i: nat| i + 1 < workers implies range_end(lines, workers, i)
        - #[trigger] range_start(lines, workers, i) == lines / workers by {
        lemma_range_bounds(lines, workers, i);
    }
    lemma_fundamental_div_mod(lines as int, workers as int);
    assert((workers - 1) * base == workers * base - base) by (nonlinear_arith);
}

/// Every row belongs to exactly one worker.
pub proof fn lemma_row_has_one_owner(lines: nat, workers: nat, row: nat)
    requires
        workers >= 1,
        row < lines,
    ensures
        exists|i: nat| i < workers && #[trigger] owns(lines, workers, i, row),
        forall|i: nat, j: nat|
            i < workers && j < workers && #[trigger] owns(lines, workers, i, row) && #[trigger] owns(
                lines,
                workers,
                j,
                row,
            ) ==> i == j,
{
    let base = share(lines, workers);
    let last = (workers - 1) as nat;
    let owner = if base > 0 && row / base < last {
        row / base
    } else {
        last
    };
    assert(owns(lines, workers, owner, row)) by {
        if base > 0 && row / base < last {
            lemma_fundamental_div_mod(row as int, base as int);
            assert((row / base + 1) * base == (row / base) * base + base) by (nonlinear_arith);
            assert((row / base) * base == base * (row / base)) by (nonlinear_arith);
        } else if base > 0 {
            lemma_fundamental_div_mod(row as int, base as int);
            assert(last * base <= (row / base) * base) by (nonlinear_arith)
                requires
                    last <= row / base,
            ;
            assert((row / base) * base == base * (row / base)) by (nonlinear_arith);
        } else {
            assert(last * base == 0) by (nonlinear_arith)
                requires
                    base == 0,
            ;
        }
    }
    assert forall|i: nat, j: nat|
        i < workers && j < workers && #[trigger] owns(lines, workers, i, row) && #[trigger] owns(
            lines,
            workers,
            j,
            row,
        ) implies i == j by {
        if i < j {
            lemma_ranges_ordered(lines, workers, i, j);
        } else if j < i {
            lemma_ranges_ordered(lines, workers, j, i);
        }
    }
}

/// An earlier worker's range ends no later than a later worker's range
/// starts.
pub proof fn lemma_ranges_ordered(lines: nat, workers: nat, i: nat, j: nat)
    requires
        i < j < workers,
    ensures
        range_end(lines, workers, i) <= range_start(lines, workers, j),
{
    let base = share(lines, workers);
    assert((i + 1) * base <= j * base) by (nonlinear_arith)
        requires
            i + 1 <= j,
    ;
}

/// The number of workers that take part when `threads` are asked for.
pub fn effective_workers(lines: u32, threads: u32) -> (workers: u32)
    requires
        threads >= 1,
    ensures
        workers == worker_count(lines as nat, threads as nat),
        1 <= workers <= threads,
{
    if lines < SPLIT_MIN_LINES || lines / threads <= SPLIT_MIN_SHARE {
        1
    } else {
        threads
    }
}

/// The range of worker `index` among `workers` workers over `lines` rows.
pub fn worker_range(lines: u32, workers: u32, index: u32) -> (range: RowRange)
    requires
        index < workers,
    ensures
        range.start == range_start(lines as nat, workers as nat, index as nat),
        range.end == range_end(lines as nat, workers as nat, index as nat),
        range.start <= range.end <= lines,
{
    let base = lines / workers;
    proof {
        lemma_range_bounds(lines as nat, workers as nat, index as nat);
        lemma_fundamental_div_mod(lines as int, workers as int);
        assert((index + 1) * base <= workers * base) by (nonlinear_arith)
            requires
                index + 1 <= workers,
        ;
        assert(workers * base <= lines) by (nonlinear_arith)
            requires
                lines == workers * base + lines % workers,
                workers > 0,
        ;
        assert(index * base <= (index + 1) * base) by (nonlinear_arith);
    }
    let start = index * base;
    let end = if index == workers - 1 {
        lines
    } else {
        (index + 1) * base
    };
    RowRange { start, end }
}

/// The ranges of all `workers` workers over `lines` rows, in worker order.
pub fn partition(lines: u32, workers: u32) -> (all: Vec<RowRange>)
    requires
        workers >= 1,
    ensures
        all@ == ranges(lines as nat, workers as nat),
{
    let mut all: Vec<RowRange> = Vec::new();
    let mut index: u32 = 0;
    while index < workers
        invariant
            index <= workers,
            all@.len() == index,
            forall|k: int|
                0 <= k < index ==> #[trigger] all@[k] == ranges(lines as nat, workers as nat)[k],
        decreases workers - index,
    {
        all.push(worker_range(lines, workers, index));
        index += 1;
    }
    assert(all@ =~= ranges(lines as nat, workers as nat));
    all
}

} // verus!
