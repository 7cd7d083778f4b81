//! Workers: each synthesizes the rows of its range, buffers them and hands
//! them out in batches of lines for its sink.

use crate::bytes::{append_bytes, lemma_terminated_append, lines, terminated, views};
use crate::field::{is_row, synthesize_row};
use crate::partition::RowRange;
use crate::schema::{ColumnType, Schema};
use vstd::prelude::*;

verus! {

/// The number of rows that make a full batch.
pub const BATCH_ROWS: usize = 10;

/// Whether `text` is `n` rows of a table with the columns `kinds`, each
/// followed by a line terminator.
pub open spec fn is_lines(kinds: Seq<ColumnType>, sep: Seq<u8>, n: nat, text: Seq<u8>) -> bool {
    exists|rows: Seq<Seq<u8>>| #[trigger]
        are_rows(kinds, sep, n, rows) && text == terminated(rows)
}

/// Whether `rows` holds `n` rows of a table with the columns `kinds`.
pub open spec fn are_rows(kinds: Seq<ColumnType>, sep: Seq<u8>, n: nat, rows: Seq<Seq<u8>>) -> bool {
    &&& rows.len() == n
    &&& forall|i: int| 0 <= i < rows.len() ==> is_row(kinds, sep, #[trigger] rows[i])
}

/// Lines of a table followed by more lines of it are lines of it, as many
/// as both together.
pub proof fn lemma_lines_append(
    kinds: Seq<ColumnType>,
    sep: Seq<u8>,
    n: nat,
    first: Seq<u8>,
    m: nat,
    second: Seq<u8>,
)
    requires
        is_lines(kinds, sep, n, first),
        is_lines(kinds, sep, m, second),
    ensures
        is_lines(kinds, sep, n + m, first + second),
{
    let a = choose|rows: Seq<Seq<u8>>| #[trigger]
        are_rows(kinds, sep, n, rows) && first == terminated(rows);
    let b = choose|rows: Seq<Seq<u8>>| #[trigger]
        are_rows(kinds, sep, m, rows) && second == terminated(rows);
    lemma_terminated_append(a, b);
    assert(are_rows(kinds, sep, n + m, a + b));
}

/// No lines at all are the empty text.
pub proof fn lemma_lines_empty(kinds: Seq<ColumnType>, sep: Seq<u8>)
    ensures
        is_lines(kinds, sep, 0, Seq::<u8>::empty()),
{
    let none = Seq::<Seq<u8>>::empty();
    assert(are_rows(kinds, sep, 0, none));
    assert(terminated(none) =~= Seq::<u8>::empty());
}

/// The rows that wait to be written: fewer than a full batch. The view is
/// the sequence of the waiting rows, oldest first.
#[derive(Debug)]
pub struct RowBuffer {
    rows: Vec<Vec<u8>>,
}

impl View for RowBuffer {
    type V = Seq<Seq<u8>>;

    closed spec fn view(&self) -> Seq<Seq<u8>> {
        views(self.rows@)
    }
}

impl RowBuffer {
    #[verifier::type_invariant]
    spec fn below_a_batch(&self) -> bool {
        self.rows@.len() < BATCH_ROWS
    }

    /// An empty buffer with room for a full batch.
    pub fn new() -> (buffer: RowBuffer)
        ensures
            buffer@.len() == 0,
    {
        RowBuffer { rows: Vec::with_capacity(BATCH_ROWS) }
    }

    /// An empty buffer that holds no storage yet.
    pub(crate) fn unallocated() -> (buffer: RowBuffer)
        ensures
            buffer@.len() == 0,
    {
        RowBuffer { rows: Vec::new() }
    }

    /// The number of waiting rows.
    pub fn len(&self) -> (n: usize)
        ensures
            n == self@.len(),
            n < BATCH_ROWS,
    {
        proof {
            use_type_invariant(self);
        }
        self.rows.len()
    }

    /// Takes `row` in. Where it completes a batch, the batch is handed out
    /// as lines, oldest row first, and the buffer is empty again.
    pub fn push(&mut self, row: Vec<u8>) -> (batch: Option<Vec<u8>>)
        ensures
            old(self)@.len() + 1 < BATCH_ROWS ==> {
                &&& batch is None
                &&& final(self)@ == old(self)@.push(row@)
            },
            old(self)@.len() + 1 >= BATCH_ROWS ==> {
                &&& batch matches Some(text)
                &&& text@ == terminated(old(self)@.push(row@))
                &&& final(self)@.len() == 0
            },
    {
        proof {
            use_type_invariant(&*self);
        }
        let mut rows: Vec<Vec<u8>> = Vec::new();
        core::mem::swap(&mut self.rows, &mut rows);
        let ghost before = rows@;
        rows.push(row);
        assert(views(rows@) =~= views(before).push(row@));
        let batch = if rows.len() >= BATCH_ROWS {
            let text = lines(&rows);
            rows.clear();
            Some(text)
        } else {
            None
        };
        self.rows = rows;
        batch
    }

    /// Hands out the waiting rows as lines, oldest first, and empties the
    /// buffer.
    pub fn drain(&mut self) -> (batch: Vec<u8>)
        ensures
            batch@ == terminated(old(self)@),
            final(self)@.len() == 0,
    {
        let mut rows: Vec<Vec<u8>> = Vec::new();
        core::mem::swap(&mut self.rows, &mut rows);
        let text = lines(&rows);
        rows.clear();
        self.rows = rows;
        text
    }
}

/// Where a worker stands.
#[derive(Clone, Copy, Debug, PartialEq, Eq, Structural)]
pub enum WorkerState {
    /// Nothing has been synthesized yet.
    Created,
    /// Rows are being synthesized and buffered.
    Running,
    /// A full batch has just been handed out for the sink.
    Flushing,
    /// The range is exhausted and the last batch has been handed out.
    Completed,
}

/// The length of `range`; a range that ends before it starts is empty.
pub open spec fn range_len(range: RowRange) -> nat {
    if range.end >= range.start {
        (range.end - range.start) as nat
    } else {
        0
    }
}

/// A worker: it synthesizes one row for every index of its range and
/// hands the rows out as lines, a batch at a time, for the caller to write
/// to the worker's sink.
#[derive(Debug)]
pub struct Worker<'a> {
    schema: &'a Schema,
    sep: &'a [u8],
    remaining: u32,
    buffer: RowBuffer,
    state: WorkerState,
}

impl<'a> Worker<'a> {
    #[verifier::type_invariant]
    spec fn consistent(&self) -> bool {
        &&& self.buffer@.len() < BATCH_ROWS
        &&& forall|i: int|
            0 <= i < self.buffer@.len() ==> is_row(self.schema@, self.sep@, #[trigger] self.buffer@[i])
        &&& self.state == WorkerState::Created ==> self.buffer@.len() == 0
        &&& self.state == WorkerState::Flushing ==> self.buffer@.len() == 0
        &&& self.state == WorkerState::Completed ==> self.buffer@.len() == 0 && self.remaining == 0
    }

    /// The kinds of the columns that the worker synthesizes rows for.
    pub closed spec fn kinds(&self) -> Seq<ColumnType> {
        self.schema@
    }

    /// The delimiter between the fields of a row.
    pub closed spec fn separator(&self) -> Seq<u8> {
        self.sep@
    }

    /// The number of rows of the range that are still to be synthesized.
    pub closed spec fn rows_left(&self) -> nat {
        self.remaining as nat
    }

    /// The number of rows that wait in the buffer.
    pub closed spec fn rows_buffered(&self) -> nat {
        self.buffer@.len()
    }

    /// Where the worker stands.
    pub closed spec fn current(&self) -> WorkerState {
        self.state
    }

    /// A worker for the rows of `range`, for a table with the columns of
    /// `schema` and the delimiter `sep`. Its buffer is empty.
    pub fn new(schema: &'a Schema, sep: &'a [u8], range: RowRange) -> (worker: Worker<'a>)
        ensures
            worker.kinds() == schema@,
            worker.separator() == sep@,
            worker.rows_left() == range_len(range),
            worker.rows_buffered() == 0,
            worker.current() == WorkerState::Created,
    {
        let remaining = if range.end >= range.start {
            range.end - range.start
        } else {
            0
        };
        Worker { schema, sep, remaining, buffer: RowBuffer::new(), state: WorkerState::Created }
    }

    /// Where the worker stands.
    pub fn state(&self) -> (state: WorkerState)
        ensures
            state == self.current(),
    {
        self.state
    }

    /// The number of rows of the range that are still to be synthesized.
    pub fn remaining(&self) -> (n: u32)
        ensures
            n == self.rows_left(),
    {
        self.remaining
    }

    /// The number of rows that wait in the buffer.
    pub fn buffered(&self) -> (n: usize)
        ensures
            n == self.rows_buffered(),
            n < BATCH_ROWS,
    {
        self.buffer.len()
    }

    /// One step of the worker. What comes back is to be written to the
    /// worker's sink.
    ///
    /// While rows are left, one row is synthesized and buffered; where it
    /// is the tenth in the buffer, the ten rows are handed out as lines and
    /// the worker is flushing, else it is running. Once no row is left, the
    /// rows still buffered are handed out, be there any or none, and the
    /// worker is completed. A completed worker does nothing.
    pub fn step(&mut self) -> (batch: Option<Vec<u8>>)
        ensures
            final(self).kinds() == old(self).kinds(),
            final(self).separator() == old(self).separator(),
            old(self).current() == WorkerState::Completed ==> {
                &&& batch is None
                &&& final(self).current() == WorkerState::Completed
                &&& final(self).rows_left() == old(self).rows_left()
                &&& final(self).rows_buffered() == old(self).rows_buffered()
            },
            old(self).current() != WorkerState::Completed && old(self).rows_left() > 0 ==> {
                &&& final(self).rows_left() == old(self).rows_left() - 1
                &&& if old(self).rows_buffered() + 1 == BATCH_ROWS {
                    &&& batch matches Some(text)
                    &&& is_lines(
                        old(self).kinds(),
                        old(self).separator(),
                        BATCH_ROWS as nat,
                        text@,
                    )
                    &&& final(self).rows_buffered() == 0
                    &&& final(self).current() == WorkerState::Flushing
                } else {
                    &&& batch is None
                    &&& final(self).rows_buffered() == old(self).rows_buffered() + 1
                    &&& final(self).current() == WorkerState::Running
                }
            },
            old(self).current() != WorkerState::Completed && old(self).rows_left() == 0 ==> {
                &&& batch matches Some(text)
                &&& is_lines(
                    old(self).kinds(),
                    old(self).separator(),
                    old(self).rows_buffered(),
                    text@,
                )
                &&& final(self).rows_left() == 0
                &&& final(self).rows_buffered() == 0
                &&& final(self).current() == WorkerState::Completed
            },
    {
        proof {
            use_type_invariant(&*self);
        }
        match self.state {
            WorkerState::Completed => None,
            _ => {
                let mut buffer = RowBuffer::unallocated();
                core::mem::swap(&mut self.buffer, &mut buffer);
                let ghost before = buffer@;
                if self.remaining > 0 {
                    let row = synthesize_row(self.schema, self.sep);
                    self.remaining = self.remaining - 1;
                    match buffer.push(row) {
                        Some(text) => {
                            self.state = WorkerState::Flushing;
                            self.buffer = buffer;
                            assert(are_rows(
                                self.schema@,
                                self.sep@,
                                BATCH_ROWS as nat,
                                before.push(row@),
                            ));
                            Some(text)
                        },
                        None => {
                            self.state = WorkerState::Running;
                            self.buffer = buffer;
                            None
                        },
                    }
                } else {
                    let text = buffer.drain();
                    self.buffer = buffer;
                    self.state = WorkerState::Completed;
                    assert(are_rows(self.schema@, self.sep@, before.len(), before));
                    Some(text)
                }
            },
        }
    }

    /// Runs a worker over `range` to its end and returns all that it hands
    /// out, in order: the artifact of the worker, one line per row of the
    /// range.
    pub fn run(schema: &'a Schema, sep: &'a [u8], range: RowRange) -> (artifact: Vec<u8>)
        ensures
            is_lines(schema@, sep@, range_len(range), artifact@),
    {
        let mut worker = Worker::new(schema, sep, range);
        let mut artifact: Vec<u8> = Vec::new();
        let ghost total = range_len(range);
        proof {
            lemma_lines_empty(schema@, sep@);
        }
        while worker.state() != WorkerState::Completed
            invariant
                worker.kinds() == schema@,
                worker.separator() == sep@,
                worker.rows_left() + worker.rows_buffered() <= total,
                worker.current() == WorkerState::Completed ==> worker.rows_left() == 0
                    && worker.rows_buffered() == 0,
                is_lines(
                    schema@,
                    sep@,
                    (total - worker.rows_left() - worker.rows_buffered()) as nat,
                    artifact@,
                ),
            decreases
                    worker.rows_left() + (if worker.current() == WorkerState::Completed {
                        0nat
                    } else {
                        1nat
                    }),
        {
            let ghost written = artifact@;
            let ghost done = (total - worker.rows_left() - worker.rows_buffered()) as nat;
            let ghost waiting = worker.rows_buffered();
            let ghost left = worker.rows_left();
            match worker.step() {
                Some(batch) => {
                    append_bytes(&mut artifact, batch.as_slice());
                    proof {
                        let n = if left > 0 {
                            BATCH_ROWS as nat
                        } else {
                            waiting
                        };
                        lemma_lines_append(schema@, sep@, done, written, n, batch@);
                    }
                },
                None => {},
            }
        }
        artifact
    }
}

} // verus!
