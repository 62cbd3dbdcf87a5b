use compactor::metrics::FileCountMetrics;
use compactor::parquet_file::{overlaps_in_time, CompactorParquetFile};
use compactor::parquet_file_filtering::{
    filter_parquet_files, filter_parquet_files_inner, FilterResult, ParquetFilesForCompaction,
};
use std::sync::Arc;

const BUCKET_500_KB: u64 = 500 * 1024;
const MEMORY_BUDGET: u64 = 1024 * 1024 * 10;

/// Estimated arrow bytes for one file with a tag, a time and 11 rows.
const ESTIMATED_BYTES: u64 = 1176;

fn file(id: i64, min_time: i64, max_time: i64) -> CompactorParquetFile {
    CompactorParquetFile {
        id,
        partition_id: 5,
        min_time,
        max_time,
        file_size_bytes: 10,
        max_sequence_number: 7,
        estimated_arrow_bytes: ESTIMATED_BYTES,
    }
}

fn costed(id: i64, min_time: i64, max_time: i64, estimated: u64) -> CompactorParquetFile {
    CompactorParquetFile { estimated_arrow_bytes: estimated, ..file(id, min_time, max_time) }
}

fn sized(id: i64, min_time: i64, max_time: i64, size: u64) -> CompactorParquetFile {
    CompactorParquetFile { file_size_bytes: size, ..file(id, min_time, max_time) }
}

fn input(
    level_0: Vec<CompactorParquetFile>,
    level_1: Vec<CompactorParquetFile>,
) -> ParquetFilesForCompaction {
    ParquetFilesForCompaction { level_0, level_1, level_2: vec![] }
}

fn ids(files: &[CompactorParquetFile]) -> Vec<i64> {
    files.iter().map(|f| f.id).collect()
}

fn assert_overlap((a_min, a_max): (i64, i64), (b_min, b_max): (i64, i64)) {
    let a = file(1, a_min, a_max);
    let b = file(1, b_min, b_max);
    assert!(
        overlaps_in_time(&a, &b),
        "Expected ({a_min}, {a_max}) to overlap with ({b_min}, {b_max}) but it didn't",
    );
    assert!(
        overlaps_in_time(&b, &a),
        "Expected ({b_min}, {b_max}) to overlap with ({a_min}, {a_max}) but it didn't",
    );
}

fn assert_no_overlap((a_min, a_max): (i64, i64), (b_min, b_max): (i64, i64)) {
    let a = file(1, a_min, a_max);
    let b = file(1, b_min, b_max);
    assert!(
        !overlaps_in_time(&a, &b),
        "Expected ({a_min}, {a_max}) to not overlap with ({b_min}, {b_max}) but it did",
    );
    assert!(
        !overlaps_in_time(&b, &a),
        "Expected ({b_min}, {b_max}) to not overlap with ({a_min}, {a_max}) but it did",
    );
}

#[test]
fn test_overlaps_in_time() {
    assert_overlap((1, 3), (2, 4));
    assert_overlap((1, 3), (1, 3));
    assert_overlap((1, 3), (3, 4));
    assert_overlap((1, 4), (2, 3));
    assert_overlap((1, 3), (2, 3));
    assert_overlap((1, 3), (1, 2));

    assert_no_overlap((1, 2), (3, 4));
}

#[test]
fn overlap_at_a_single_shared_instant() {
    assert_overlap((5, 5), (5, 5));
    assert_overlap((0, 10), (10, 20));
    assert_no_overlap((0, 9), (10, 20));
    assert_no_overlap((-20, -11), (-10, 0));
}

#[test]
fn empty_in_empty_out() {
    let (files, budget_bytes, metrics) = filter_parquet_files_inner(input(vec![], vec![]), MEMORY_BUDGET);

    assert!(files.is_empty());
    assert_eq!(budget_bytes, 0);
    assert!(metrics.is_none());
}

#[test]
fn budget_0_returns_over_budget() {
    let (files, budget_bytes, metrics) = filter_parquet_files_inner(input(vec![file(1, 8, 9)], vec![]), 0);

    assert!(files.is_empty());
    assert_eq!(budget_bytes, 1176);
    assert!(metrics.is_none());
}

#[test]
fn budget_1000_returns_over_budget() {
    let (files, budget_bytes, _) = filter_parquet_files_inner(input(vec![file(1, 8, 9)], vec![]), 1000);

    assert!(files.is_empty());
    assert_eq!(budget_bytes, 1176);
}

#[test]
fn large_budget_returns_one_level_0_file_and_its_level_1_overlaps() {
    let files_for_compaction = input(
        vec![file(1, 200, 300)],
        vec![
            // Too early
            file(101, 1, 50),
            // Completely contains the level 0 times
            file(102, 150, 350),
            // Too late
            file(103, 400, 500),
        ],
    );

    let (files, budget_bytes, _) = filter_parquet_files_inner(files_for_compaction, MEMORY_BUDGET);

    assert_eq!(files.len(), 2);
    assert_eq!(files[0].id, 102);
    assert_eq!(files[1].id, 1);
    assert_eq!(budget_bytes, 2 * 1176);
}

fn three_overlapping_level_0_files() -> ParquetFilesForCompaction {
    input(
        vec![
            // Level 0 files that overlap in time slightly.
            file(1, 200, 300),
            file(2, 280, 310),
            file(3, 309, 350),
        ],
        // Level 1 files can be assumed not to overlap each other.
        vec![
            // Does not overlap any level 0, times are too early
            file(101, 1, 50),
            // Overlaps file 1
            file(102, 199, 201),
            // Overlaps files 1 and 2
            file(103, 290, 300),
            // Overlaps file 2
            file(104, 305, 305),
            // Overlaps files 2 and 3
            file(105, 308, 311),
            // Overlaps file 3
            sized(106, 340, 360, BUCKET_500_KB + 1),
            // Does not overlap any level 0, times are too late
            file(107, 390, 399),
        ],
    )
}

#[test]
fn returns_only_overlapping_level_1_files_in_order() {
    let files_for_compaction = three_overlapping_level_0_files();

    let (files, budget_bytes, metrics) =
        filter_parquet_files_inner(files_for_compaction.clone(), 1176 * 3 + 5);

    assert_eq!(ids(&files), [102, 103, 1]);
    assert_eq!(budget_bytes, 3 * 1176);
    assert_eq!(
        metrics.unwrap().files,
        FileCountMetrics {
            level_0_selected: 1,
            level_0_not_selected: 2,
            level_1_selected: 2,
            level_1_not_selected: 5,
        }
    );

    // Increase budget to more than 6 files; 1st two level 0 files & their overlapping level 1
    // files get returned
    let (files, budget_bytes, metrics) = filter_parquet_files_inner(files_for_compaction, 1176 * 6 + 5);

    assert_eq!(ids(&files), [102, 103, 104, 105, 1, 2]);
    assert_eq!(budget_bytes, 6 * 1176);
    assert_eq!(
        metrics.unwrap().files,
        FileCountMetrics {
            level_0_selected: 2,
            level_0_not_selected: 1,
            level_1_selected: 4,
            level_1_not_selected: 3,
        }
    );
}

#[test]
fn all_groups_fit_with_sizes_and_estimates_reported() {
    let (files, budget_bytes, metrics) =
        filter_parquet_files_inner(three_overlapping_level_0_files(), MEMORY_BUDGET);

    assert_eq!(ids(&files), [102, 103, 104, 105, 106, 1, 2, 3]);
    assert_eq!(budget_bytes, 8 * 1176);
    let metrics = metrics.unwrap();
    assert_eq!(
        metrics.files,
        FileCountMetrics {
            level_0_selected: 3,
            level_0_not_selected: 0,
            level_1_selected: 5,
            level_1_not_selected: 2,
        }
    );
    assert_eq!(metrics.bytes.level_0_sizes, vec![10, 10, 10]);
    assert_eq!(metrics.bytes.level_1_sizes, vec![10, 10, 10, 10, BUCKET_500_KB + 1]);
    assert_eq!(metrics.bytes.level_0_estimated_compacting_budgets, vec![1176, 1176, 1176]);
    assert_eq!(metrics.bytes.level_1_estimated_compacting_budgets, vec![1176; 5]);
}

#[test]
fn level_1_file_overlapping_two_level_0_files_is_selected_once() {
    let files_for_compaction = input(
        vec![file(1, 100, 200), file(2, 150, 250)],
        vec![file(101, 180, 190)],
    );

    let (files, budget_bytes, _) = filter_parquet_files_inner(files_for_compaction, MEMORY_BUDGET);

    assert_eq!(ids(&files), [101, 1, 2]);
    assert_eq!(budget_bytes, 3 * 1176);
}

#[test]
fn level_1_groups_keep_their_claiming_order() {
    // File 1 claims 102, file 2 claims 101: the level-1 files come in the order of their
    // claiming level-0 files, not in their input order.
    let files_for_compaction = input(
        vec![file(1, 100, 200), file(2, 300, 400)],
        vec![file(101, 350, 360), file(102, 150, 160)],
    );

    let (files, _, _) = filter_parquet_files_inner(files_for_compaction, MEMORY_BUDGET);

    assert_eq!(ids(&files), [102, 101, 1, 2]);
}

#[test]
fn a_constant_cost_per_file_admits_three_files() {
    let level_0 = (1..=5).map(|i| costed(i, 10 * i, 10 * i + 1, 100)).collect();

    let (files, budget_bytes, _) = filter_parquet_files_inner(input(level_0, vec![]), 3 * 100 + 7);

    assert_eq!(ids(&files), [1, 2, 3]);
    assert_eq!(budget_bytes, 300);
}

#[test]
fn selection_never_skips_a_level_0_file() {
    // The second group does not fit; the cheap third one would, but is not taken.
    let files_for_compaction = input(
        vec![costed(1, 0, 1, 100), costed(2, 10, 11, 1000), costed(3, 20, 21, 1)],
        vec![],
    );

    let (files, budget_bytes, _) = filter_parquet_files_inner(files_for_compaction, 150);

    assert_eq!(ids(&files), [1]);
    assert_eq!(budget_bytes, 100);
}

#[test]
fn first_group_over_budget_reports_its_whole_cost() {
    // The first level-0 file alone would fit, but not together with the level-1 file it
    // overlaps; the cheap second level-0 file is not considered.
    let files_for_compaction = input(
        vec![costed(1, 0, 10, 100), costed(2, 20, 30, 1)],
        vec![costed(101, 5, 6, 500)],
    );

    let (files, budget_bytes, metrics) = filter_parquet_files_inner(files_for_compaction, 200);

    assert!(files.is_empty());
    assert_eq!(budget_bytes, 600);
    assert!(metrics.is_none());
}

#[test]
fn zero_cost_groups_then_over_budget_returns_nothing() {
    let files_for_compaction = input(vec![costed(1, 0, 1, 0), costed(2, 5, 6, 5)], vec![]);

    let (files, budget_bytes, _) = filter_parquet_files_inner(files_for_compaction, 0);

    assert!(files.is_empty());
    assert_eq!(budget_bytes, 5);
}

#[test]
fn filter_results_cover_all_four_outcomes() {
    let partition = Arc::new(5_i64);

    let (nothing, _) = filter_parquet_files(Arc::clone(&partition), input(vec![], vec![]), 10);
    assert_eq!(nothing.filter_result(), FilterResult::NothingToCompact);
    assert_eq!(nothing.budget_bytes(), 0);

    let (over, _) = filter_parquet_files(Arc::clone(&partition), input(vec![file(1, 8, 9)], vec![]), 10);
    assert_eq!(over.filter_result(), FilterResult::OverBudget);
    assert_eq!(over.budget_bytes(), 1176);

    let (error, _) = filter_parquet_files(
        Arc::clone(&partition),
        input(vec![costed(1, 8, 9, 0)], vec![]),
        10,
    );
    assert_eq!(error.filter_result(), FilterResult::ErrorEstimatingBudget);
    assert_eq!(error.budget_bytes(), 0);
    assert_eq!(ids(&error.files), [1]);

    let (proceed, metrics) = filter_parquet_files(
        Arc::clone(&partition),
        input(vec![file(1, 8, 9)], vec![file(101, 9, 12)]),
        MEMORY_BUDGET,
    );
    assert_eq!(proceed.filter_result(), FilterResult::Proceed);
    assert_eq!(proceed.budget_bytes(), 2 * 1176);
    assert_eq!(ids(&proceed.files), [101, 1]);
    assert_eq!(*proceed.partition, 5);
    assert!(metrics.is_some());
}

#[test]
fn rerunning_the_selection_gives_the_same_bundle() {
    let partition = Arc::new(5_i64);
    let files_for_compaction = three_overlapping_level_0_files();

    let (first, first_metrics) =
        filter_parquet_files(Arc::clone(&partition), files_for_compaction.clone(), 1176 * 6 + 5);
    let (second, second_metrics) =
        filter_parquet_files(Arc::clone(&partition), files_for_compaction, 1176 * 6 + 5);

    assert_eq!(first.files, second.files);
    assert_eq!(first.budget_bytes(), second.budget_bytes());
    assert_eq!(first.filter_result(), second.filter_result());
    assert_eq!(first_metrics.unwrap().files, second_metrics.unwrap().files);
}
