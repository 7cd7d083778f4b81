//! The whole run: every worker's artifact, their consolidation behind the
//! header line, and the table definition beside it.

use crate::bytes::{append_bytes, concat, count, free_of, terminated, views, NEWLINE};
use crate::bytes::{lemma_count_add, lemma_count_terminated};
use crate::config::Config;
use crate::field::lemma_row_delimiters;
use crate::partition::{partition, range_end, range_start, ranges, worker_count};
use crate::partition::{lemma_partition_covers, lemma_range_bounds};
use crate::schema::{header_text, lemma_header_delimiters, table_definition, ColumnType, Schema};
use crate::worker::{are_rows, is_lines, lemma_lines_append, lemma_lines_empty, Worker};
use vstd::prelude::*;

verus! {

/// Whether `data` is the text of a table with the columns `kinds` and
/// `lines` rows: the header line, and then one line per row.
pub open spec fn is_table_text(kinds: Seq<ColumnType>, sep: Seq<u8>, lines: nat, data: Seq<u8>) -> bool {
    let head = header_text(kinds.len(), sep) + seq![NEWLINE];
    &&& data.len() >= head.len()
    &&& data.take(head.len() as int) == head
    &&& is_lines(kinds, sep, lines, data.skip(head.len() as int))
}

/// The rows that the first `k` of `workers` workers cover together.
pub open spec fn covered(lines: nat, workers: nat, k: nat) -> nat {
    if k < workers {
        range_start(lines, workers, k)
    } else {
        lines
    }
}

/// Whether `artifacts` holds, for each of `workers` workers in worker
/// order, the lines of the rows of its range.
pub open spec fn are_artifacts(
    kinds: Seq<ColumnType>,
    sep: Seq<u8>,
    lines: nat,
    workers: nat,
    artifacts: Seq<Seq<u8>>,
) -> bool {
    &&& artifacts.len() == workers
    &&& forall|i: int|
        0 <= i < workers ==> is_lines(
            kinds,
            sep,
            (range_end(lines, workers, i as nat) - range_start(lines, workers, i as nat)) as nat,
            #[trigger] artifacts[i],
        )
}

/// The first `k` artifacts, one behind the other, are the lines of the
/// rows that the first `k` workers cover together.
pub proof fn lemma_artifacts_are_lines(
    kinds: Seq<ColumnType>,
    sep: Seq<u8>,
    lines: nat,
    workers: nat,
    artifacts: Seq<Seq<u8>>,
    k: nat,
)
    requires
        workers >= 1,
        k <= workers,
        are_artifacts(kinds, sep, lines, workers, artifacts),
    ensures
        is_lines(kinds, sep, covered(lines, workers, k), concat(artifacts.take(k as int))),
    decreases k,
{
    lemma_partition_covers(lines, workers);
    if k == 0 {
        lemma_lines_empty(kinds, sep);
        assert(concat(artifacts.take(0)) =~= Seq::<u8>::empty());
    } else {
        let before = (k - 1) as nat;
        lemma_artifacts_are_lines(kinds, sep, lines, workers, artifacts, before);
        lemma_range_bounds(lines, workers, before);
        let share = (range_end(lines, workers, before) - range_start(
            lines,
            workers,
            before,
        )) as nat;
        assert(artifacts.take(k as int).drop_last() =~= artifacts.take(before as int));
        assert(artifacts.take(k as int).last() == artifacts[before as int]);
        lemma_lines_append(
            kinds,
            sep,
            covered(lines, workers, before),
            concat(artifacts.take(before as int)),
            share,
            artifacts[before as int],
        );
        assert(covered(lines, workers, before) + share == covered(lines, workers, k));
    }
}

/// All artifacts of a run, one behind the other in worker order, are the
/// lines of exactly `lines` rows: no row is lost and none is made twice.
pub proof fn lemma_consolidation_is_complete(
    kinds: Seq<ColumnType>,
    sep: Seq<u8>,
    lines: nat,
    workers: nat,
    artifacts: Seq<Seq<u8>>,
)
    requires
        workers >= 1,
        are_artifacts(kinds, sep, lines, workers, artifacts),
    ensures
        is_lines(kinds, sep, lines, concat(artifacts)),
{
    lemma_artifacts_are_lines(kinds, sep, lines, workers, artifacts, workers);
    assert(artifacts.take(workers as int) =~= artifacts);
}

/// Lines of rows hold one line terminator per row, where the delimiter
/// holds none.
pub proof fn lemma_lines_count(kinds: Seq<ColumnType>, sep: Seq<u8>, n: nat, text: Seq<u8>)
    requires
        is_lines(kinds, sep, n, text),
        count(sep, NEWLINE) == 0,
    ensures
        count(text, NEWLINE) == n,
{
    let rows = choose|rows: Seq<Seq<u8>>| #[trigger]
        are_rows(kinds, sep, n, rows) && text == terminated(rows);
    assert(free_of(rows, NEWLINE)) by {
        assert forall|i: int| 0 <= i < rows.len() implies count(#[trigger] rows[i], NEWLINE)
            == 0 by {
            lemma_row_delimiters(kinds, sep, rows[i], NEWLINE);
            if kinds.len() >= 1 {
                assert((kinds.len() - 1) * 0 == 0) by (nonlinear_arith);
            }
        }
    }
    lemma_count_terminated(rows);
}

/// The text of a table of `lines` rows holds `lines + 1` line terminators,
/// one for the header line and one for each row, where the delimiter holds
/// none.
pub proof fn lemma_table_line_count(
    kinds: Seq<ColumnType>,
    sep: Seq<u8>,
    lines: nat,
    data: Seq<u8>,
)
    requires
        is_table_text(kinds, sep, lines, data),
        count(sep, NEWLINE) == 0,
    ensures
        count(data, NEWLINE) == lines + 1,
{
    let header = header_text(kinds.len(), sep);
    let head = header + seq![NEWLINE];
    let body = data.skip(head.len() as int);
    lemma_header_delimiters(kinds.len(), sep, NEWLINE);
    if kinds.len() >= 1 {
        assert((kinds.len() - 1) * 0 == 0) by (nonlinear_arith);
    }
    assert(count(seq![NEWLINE], NEWLINE) == 1) by {
        assert(seq![NEWLINE].drop_last() =~= Seq::<u8>::empty());
        assert(count(Seq::<u8>::empty(), NEWLINE) == 0);
        assert(seq![NEWLINE].last() == NEWLINE);
    }
    lemma_count_add(header, seq![NEWLINE], NEWLINE);
    lemma_lines_count(kinds, sep, lines, body);
    lemma_count_add(head, body, NEWLINE);
    assert(data =~= data.take(head.len() as int) + body);
}

/// Two runs of one configuration agree in structure, whatever was drawn:
/// their texts start with the same header line, and where the delimiter
/// holds no line terminator, they hold the same number of lines.
pub proof fn lemma_structure_is_determined(
    first_kinds: Seq<ColumnType>,
    second_kinds: Seq<ColumnType>,
    sep: Seq<u8>,
    lines: nat,
    first: Seq<u8>,
    second: Seq<u8>,
)
    requires
        first_kinds.len() == second_kinds.len(),
        is_table_text(first_kinds, sep, lines, first),
        is_table_text(second_kinds, sep, lines, second),
    ensures
        ({
            let head = header_text(first_kinds.len(), sep) + seq![NEWLINE];
            first.take(head.len() as int) == head && second.take(head.len() as int) == head
        }),
        count(sep, NEWLINE) == 0 ==> count(first, NEWLINE) == lines + 1 && count(second, NEWLINE)
            == lines + 1,
{
    if count(sep, NEWLINE) == 0 {
        lemma_table_line_count(first_kinds, sep, lines, first);
        lemma_table_line_count(second_kinds, sep, lines, second);
    }
}

/// Appends the artifacts to `sink`, whole and unchanged, in the order in
/// which `artifacts` holds them.
pub fn consolidate(sink: &mut Vec<u8>, artifacts: &Vec<Vec<u8>>)
    ensures
        final(sink)@ == old(sink)@ + concat(views(artifacts@)),
{
    let mut i: usize = 0;
    assert(concat(views(artifacts@).take(0)) =~= Seq::<u8>::empty());
    while i < artifacts.len()
        invariant
            i <= artifacts.len(),
            sink@ == old(sink)@ + concat(views(artifacts@).take(i as int)),
        decreases artifacts.len() - i,
    {
        append_bytes(sink, artifacts[i].as_slice());
        i += 1;
        proof {
            let now = views(artifacts@).take(i as int);
            assert(now.drop_last() =~= views(artifacts@).take(i - 1));
            assert(now.last() == artifacts@[i - 1]@);
            assert(sink@ =~= old(sink)@ + concat(now));
        }
    }
    assert(views(artifacts@).take(i as int) =~= views(artifacts@));
}

/// Runs every worker of the configuration over its range, in worker
/// order, and returns their artifacts in that order.
pub fn run_workers(schema: &Schema, config: &Config) -> (artifacts: Vec<Vec<u8>>)
    ensures
        are_artifacts(
            schema@,
            config@.delimiter,
            config@.lines as nat,
            worker_count(config@.lines as nat, config@.threads as nat),
            views(artifacts@),
        ),
{
    let lines = config.lines();
    let workers = config.workers();
    let sep = config.delimiter();
    let all = partition(lines, workers);
    let mut artifacts: Vec<Vec<u8>> = Vec::new();
    let mut i: usize = 0;
    while i < all.len()
        invariant
            i <= all@.len(),
            all@ == ranges(lines as nat, workers as nat),
            workers >= 1,
            sep@ == config@.delimiter,
            artifacts@.len() == i,
            forall|k: int|
                0 <= k < i ==> is_lines(
                    schema@,
                    sep@,
                    (range_end(lines as nat, workers as nat, k as nat) - range_start(
                        lines as nat,
                        workers as nat,
                        k as nat,
                    )) as nat,
                    (#[trigger] artifacts@[k])@,
                ),
        decreases all@.len() - i,
    {
        proof {
            lemma_range_bounds(lines as nat, workers as nat, i as nat);
        }
        let artifact = Worker::run(schema, sep, all[i]);
        artifacts.push(artifact);
        i += 1;
    }
    artifacts
}

/// The text of the output file: the header line, then the artifacts of
/// all workers in worker order.
pub fn data_text(schema: &Schema, config: &Config) -> (data: Vec<u8>)
    ensures
        is_table_text(schema@, config@.delimiter, config@.lines as nat, data@),
{
    let workers = config.workers();
    let mut data = schema.header_line(config.delimiter());
    data.push(NEWLINE);
    let ghost head = data@;
    let artifacts = run_workers(schema, config);
    consolidate(&mut data, &artifacts);
    proof {
        lemma_consolidation_is_complete(
            schema@,
            config@.delimiter,
            config@.lines as nat,
            workers as nat,
            views(artifacts@),
        );
        assert(head =~= header_text(schema@.len(), config@.delimiter) + seq![NEWLINE]);
        assert(data@.take(head.len() as int) =~= head);
        assert(data@.skip(head.len() as int) =~= concat(views(artifacts@)));
    }
    data
}

/// The text of the table definition file: the definition and a line
/// terminator.
pub fn definition_text(schema: &Schema) -> (text: Vec<u8>)
    ensures
        text@ == table_definition(schema@) + seq![NEWLINE],
{
    let mut text = schema.definition();
    text.push(NEWLINE);
    assert(text@ =~= table_definition(schema@) + seq![NEWLINE]);
    text
}

/// What one run yields.
#[derive(Debug)]
pub struct Table {
    /// The columns, their kinds drawn at random.
    pub schema: Schema,
    /// The text of the output file.
    pub data: Vec<u8>,
    /// The text of the table definition file.
    pub definition: Vec<u8>,
}

/// One whole run, in memory: a schema of the configured number of columns
/// is drawn, and the output text and the table definition are made for it.
pub fn generate(config: &Config) -> (table: Table)
    ensures
        table.schema@.len() == config@.cols,
        is_table_text(table.schema@, config@.delimiter, config@.lines as nat, table.data@),
        table.definition@ == table_definition(table.schema@) + seq![NEWLINE],
{
    let schema = Schema::random(config.cols());
    let data = data_text(&schema, config);
    let definition = definition_text(&schema);
    Table { schema, data, definition }
}

} // verus!
