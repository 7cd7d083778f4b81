use csvgen::partition::{effective_workers, partition, worker_range, RowRange};
use csvgen::partition::{SPLIT_MIN_LINES, SPLIT_MIN_SHARE};

#[test]
fn split_limits() {
    assert_eq!(SPLIT_MIN_LINES, 100);
    assert_eq!(SPLIT_MIN_SHARE, 10);
}

#[test]
fn enough_rows_keep_the_threads() {
    assert_eq!(effective_workers(1000, 4), 4);
    assert_eq!(effective_workers(110, 10), 10);
    assert_eq!(effective_workers(100, 9), 9);
    assert_eq!(effective_workers(u32::MAX, 1000), 1000);
}

#[test]
fn few_rows_force_one_worker() {
    assert_eq!(effective_workers(99, 2), 1);
    assert_eq!(effective_workers(50, 5), 1);
    assert_eq!(effective_workers(1, 1), 1);
    assert_eq!(effective_workers(0, 3), 1);
}

#[test]
fn a_share_of_ten_forces_one_worker() {
    assert_eq!(effective_workers(100, 10), 1);
    assert_eq!(effective_workers(1000, 100), 1);
    assert_eq!(effective_workers(1009, 100), 1);
    assert_eq!(effective_workers(1100, 100), 100);
}

#[test]
fn one_thread_stays_one_worker() {
    assert_eq!(effective_workers(1000, 1), 1);
    assert_eq!(effective_workers(5, 1), 1);
}

#[test]
fn even_split() {
    assert_eq!(worker_range(1000, 4, 0), RowRange { start: 0, end: 250 });
    assert_eq!(worker_range(1000, 4, 1), RowRange { start: 250, end: 500 });
    assert_eq!(worker_range(1000, 4, 2), RowRange { start: 500, end: 750 });
    assert_eq!(worker_range(1000, 4, 3), RowRange { start: 750, end: 1000 });
}

#[test]
fn last_worker_takes_the_remainder() {
    assert_eq!(worker_range(103, 4, 0), RowRange { start: 0, end: 25 });
    assert_eq!(worker_range(103, 4, 2), RowRange { start: 50, end: 75 });
    let last = worker_range(103, 4, 3);
    assert_eq!(last, RowRange { start: 75, end: 103 });
    assert_eq!(last.end - last.start, 103 / 4 + 103 % 4);
}

#[test]
fn single_worker_takes_all() {
    assert_eq!(worker_range(50, 1, 0), RowRange { start: 0, end: 50 });
    assert_eq!(worker_range(0, 1, 0), RowRange { start: 0, end: 0 });
    assert_eq!(worker_range(u32::MAX, 1, 0), RowRange { start: 0, end: u32::MAX });
}

#[test]
fn more_workers_than_rows() {
    assert_eq!(worker_range(5, 7, 0), RowRange { start: 0, end: 0 });
    assert_eq!(worker_range(5, 7, 5), RowRange { start: 0, end: 0 });
    assert_eq!(worker_range(5, 7, 6), RowRange { start: 0, end: 5 });
}

#[test]
fn largest_row_count_splits_without_overflow() {
    let lines: u32 = u32::MAX;
    let workers: u32 = 3;
    assert_eq!(worker_range(lines, workers, 2), RowRange { start: 2 * (lines / 3), end: lines });
    assert_eq!(worker_range(lines, u32::MAX, u32::MAX - 1), RowRange { start: lines - 1, end: lines });
}

#[test]
fn partition_lists_the_ranges_in_worker_order() {
    assert_eq!(
        partition(103, 4),
        vec![
            RowRange { start: 0, end: 25 },
            RowRange { start: 25, end: 50 },
            RowRange { start: 50, end: 75 },
            RowRange { start: 75, end: 103 },
        ]
    );
}

#[test]
fn partition_covers_every_row_once() {
    let cases: Vec<(u32, u32)> =
        vec![(1000, 4), (103, 4), (5, 7), (1, 1), (0, 2), (999, 10), (12345, 17), (100, 100)];
    for (lines, workers) in cases {
        let all = partition(lines, workers);
        assert_eq!(all.len(), workers as usize);
        let mut next: u32 = 0;
        for range in all.iter() {
            assert_eq!(range.start, next);
            assert!(range.start <= range.end);
            next = range.end;
        }
        assert_eq!(next, lines);
        let last = all[all.len() - 1];
        assert_eq!(last.end - last.start, lines / workers + lines % workers);
        for range in all.iter().take(all.len() - 1) {
            assert_eq!(range.end - range.start, lines / workers);
        }
    }
}
