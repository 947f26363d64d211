use clipboard_log::order::{extrema, median_of, sorted};
use clipboard_log::pass::read;
use clipboard_log::record::LogRecord;
use clipboard_log::stats::{entries_left, ComputedStats, Stats};

fn stats_of_lengths(lengths: &[usize]) -> Stats {
    let mut stats = Stats::new();
    for (i, len) in lengths.iter().enumerate() {
        stats.record(&LogRecord::SaveText { length: len + 1, sequence_id: i + 1 });
    }
    stats
}

#[test]
fn four_lengths_sort_and_give_the_upper_middle() {
    let lengths = [5usize, 1, 9, 3];
    assert_eq!(sorted(&lengths), vec![1, 3, 5, 9]);
    assert_eq!(median_of(&lengths), Some(5));
    assert_eq!(extrema(&lengths), Some((1, 9)));
}

#[test]
fn median_goes_by_value_not_by_encounter() {
    let lengths = [9usize, 1, 5];
    assert_eq!(median_of(&lengths), Some(5));
    let computed = stats_of_lengths(&lengths).computed().unwrap();
    assert_eq!(computed.median_entry_length, 5);
}

#[test]
fn median_of_one_and_of_two() {
    assert_eq!(median_of(&[7]), Some(7));
    assert_eq!(median_of(&[8, 2]), Some(8));
    assert_eq!(median_of(&[2, 8]), Some(8));
    assert_eq!(median_of(&[]), None);
}

#[test]
fn sorting_keeps_every_number() {
    assert_eq!(sorted(&[]), Vec::<usize>::new());
    assert_eq!(sorted(&[4]), vec![4]);
    assert_eq!(sorted(&[3, 3, 1, 3, 1]), vec![1, 1, 3, 3, 3]);
    assert_eq!(sorted(&[1, 2, 3, 4, 5, 6]), vec![1, 2, 3, 4, 5, 6]);
    assert_eq!(sorted(&[6, 5, 4, 3, 2, 1, 0]), vec![0, 1, 2, 3, 4, 5, 6]);
    assert_eq!(sorted(&[usize::MAX, 0, usize::MAX]), vec![0, usize::MAX, usize::MAX]);
}

#[test]
fn sorting_handles_many_numbers() {
    let mut lengths = Vec::new();
    let mut x: usize = 12345;
    for _ in 0..1000 {
        x = (x * 1103515245 + 12345) % 2147483648;
        lengths.push(x % 500);
    }
    let mut expected = lengths.clone();
    expected.sort();
    assert_eq!(sorted(&lengths), expected);
    assert_eq!(median_of(&lengths), Some(expected[500]));
}

#[test]
fn extrema_of_none_and_of_some() {
    assert_eq!(extrema(&[]), None);
    assert_eq!(extrema(&[4]), Some((4, 4)));
    assert_eq!(extrema(&[4, 2, 8, 2]), Some((2, 8)));
}

#[test]
fn new_statistics_are_empty() {
    let stats = Stats::new();
    let report = stats.finalize();
    assert_eq!(report.raw.num_entries, 0);
    assert_eq!(report.raw.total_str_bytes, 0);
    assert_eq!(report.raw.ops.num_save_texts, 0);
    assert_eq!(report.computed, None);
    assert!(stats.lengths().is_empty());
    assert_eq!(stats.computed(), None);
}

#[test]
fn each_kind_counts_in_its_own_counter() {
    let mut stats = Stats::new();
    stats.record(&LogRecord::SaveText { length: 4, sequence_id: 1 });
    stats.record(&LogRecord::SaveText { length: 11, sequence_id: 2 });
    stats.record(&LogRecord::SaveText { length: 1, sequence_id: 3 });
    stats.record(&LogRecord::DeleteText { id: 1 });
    stats.record(&LogRecord::FavoriteItem { id: 2 });
    stats.record(&LogRecord::FavoriteItem { id: 3 });
    stats.record(&LogRecord::UnfavoriteItem { id: 2 });
    stats.record(&LogRecord::MoveItemToEnd { id: 3 });
    stats.record(&LogRecord::MoveItemToEnd { id: 2 });
    stats.record(&LogRecord::MoveItemToEnd { id: 3 });
    let raw = stats.raw();
    assert_eq!(raw.ops.num_save_texts, 3);
    assert_eq!(raw.ops.num_deletes, 1);
    assert_eq!(raw.ops.num_favorites, 2);
    assert_eq!(raw.ops.num_unfavorites, 1);
    assert_eq!(raw.ops.num_moves, 3);
    assert_eq!(raw.num_entries, 2);
    assert_eq!(raw.total_str_bytes, 13);
    assert_eq!(stats.lengths(), &vec![3, 10, 0]);
}

#[test]
fn computed_statistics_of_four_texts() {
    let computed = stats_of_lengths(&[5, 1, 9, 3]).computed();
    assert_eq!(
        computed,
        Some(ComputedStats {
            min_entry_length: 1,
            max_entry_length: 9,
            total_entry_length: 18,
            num_entry_lengths: 4,
            median_entry_length: 5,
        })
    );
    let computed = computed.unwrap();
    let mean = computed.total_entry_length as f64 / computed.num_entry_lengths as f64;
    assert_eq!(mean, 4.5);
}

#[test]
fn report_holds_counters_and_computed_statistics() {
    let log = [1, b'a', b'b', b'c', 0, 1, b'd', 0, 2, 2, 0, 0, 0];
    let report = read(&log).unwrap().finalize();
    assert_eq!(report.raw.num_entries, 1);
    assert_eq!(report.raw.total_str_bytes, 4);
    assert_eq!(report.raw.ops.num_save_texts, 2);
    assert_eq!(report.raw.ops.num_deletes, 1);
    assert_eq!(
        report.computed,
        Some(ComputedStats {
            min_entry_length: 1,
            max_entry_length: 3,
            total_entry_length: 4,
            num_entry_lengths: 2,
            median_entry_length: 3,
        })
    );
}

#[test]
fn log_without_saved_text_has_no_computed_statistics() {
    let log = [3, 1, 0, 0, 0, 4, 1, 0, 0, 0];
    let report = read(&log).unwrap().finalize();
    assert_eq!(report.computed, None);
    assert_eq!(report.raw.ops.num_favorites, 1);
    assert_eq!(report.raw.ops.num_unfavorites, 1);
    assert_eq!(report.raw.num_entries, 0);
}

#[test]
fn entries_are_saves_less_deletes_and_never_negative() {
    assert_eq!(entries_left(5, 2), 3);
    assert_eq!(entries_left(2, 2), 0);
    assert_eq!(entries_left(0, 0), 0);
    assert_eq!(entries_left(1, 3), 0);
    let log = [2, 1, 0, 0, 0, 2, 1, 0, 0, 0, 1, b'a', 0];
    let raw = read(&log).unwrap().raw();
    assert_eq!(raw.ops.num_save_texts, 1);
    assert_eq!(raw.ops.num_deletes, 2);
    assert_eq!(raw.num_entries, 0);
}

#[test]
fn default_statistics_are_empty() {
    let stats = Stats::default();
    assert_eq!(stats.raw(), Stats::new().raw());
    assert_eq!(stats.finalize().computed, None);
}
