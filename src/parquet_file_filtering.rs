//! Selection of the files for one compaction of a partition, within a memory budget.
use vstd::prelude::*;
use std::sync::Arc;
use crate::parquet_file::{CompactorParquetFile, overlaps_in_time};
use crate::metrics::{ByteMetrics, CandidateMetrics, estimated_bytes, file_count_metrics, file_sizes};
use crate::selection::{
    accepted_count, accepted_from, costs_fit, lemma_accounting, lemma_prefix_cost_bounded,
    lemma_split, lemma_sum_nonneg, lemma_sum_push, lemma_sum_take_le, non_overlapping, overlapping,
    prefix_cost, remaining_level_1, reported_budget, selected_files, selected_level_1,
    stops_over_budget, sum_estimated,
};

verus! {

/// A partition's files that are candidates for compaction.
#[derive(Clone, Debug)]
pub struct ParquetFilesForCompaction {
    /// Level-0 files, sorted ascending by sequence number.
    pub level_0: Vec<CompactorParquetFile>,
    /// Level-1 files, in arbitrary order and pairwise non-overlapping in time.
    pub level_1: Vec<CompactorParquetFile>,
    /// Files of later levels; the selection ignores them.
    pub level_2: Vec<CompactorParquetFile>,
}

/// The files chosen for one compaction of a partition, with the estimated memory needed to
/// compact them.
#[derive(Debug)]
pub struct FilteredFiles<P> {
    /// The level-1 files to compact, then the level-0 files in sequence order.
    pub files: Vec<CompactorParquetFile>,
    /// Estimated bytes needed to compact `files`; with no files, the cost of the first group
    /// that did not fit, or zero when there was nothing to compact.
    budget_bytes: u64,
    /// The partition the files belong to.
    pub partition: Arc<P>,
}

/// What the caller should do with a [`FilteredFiles`].
#[derive(Clone, Copy, Debug, PartialEq, Eq, Structural)]
pub enum FilterResult {
    NothingToCompact,
    ErrorEstimatingBudget,
    OverBudget,
    Proceed,
}

/// The outcome that a selection of `files` with estimated cost `budget_bytes` stands for.
pub open spec fn filter_outcome(files: Seq<CompactorParquetFile>, budget_bytes: int) -> FilterResult {
    if files.len() == 0 {
        if budget_bytes == 0 {
            FilterResult::NothingToCompact
        } else {
            FilterResult::OverBudget
        }
    } else {
        if budget_bytes == 0 {
            FilterResult::ErrorEstimatingBudget
        } else {
            FilterResult::Proceed
        }
    }
}

impl<P> FilteredFiles<P> {
    /// The files held in the bundle.
    pub closed spec fn file_seq(&self) -> Seq<CompactorParquetFile> {
        self.files@
    }

    /// The partition the bundle refers to.
    pub closed spec fn partition_ref(&self) -> Arc<P> {
        self.partition
    }

    /// The estimated bytes held in the bundle.
    pub closed spec fn budget(&self) -> u64 {
        self.budget_bytes
    }

    /// Classifies the bundle by whether it holds files and whether its cost is zero.
    pub fn filter_result(&self) -> (r: FilterResult)
        ensures
            r == filter_outcome(self.file_seq(), self.budget() as int),
    {
        if self.files.len() == 0 && self.budget_bytes == 0 {
            FilterResult::NothingToCompact
        } else if self.files.len() != 0 && self.budget_bytes == 0 {
            FilterResult::ErrorEstimatingBudget
        } else if self.files.len() == 0 && self.budget_bytes != 0 {
            FilterResult::OverBudget
        } else {
            FilterResult::Proceed
        }
    }

    /// The estimated bytes needed to compact the files.
    pub fn budget_bytes(&self) -> (r: u64)
        ensures
            r == self.budget(),
    {
        self.budget_bytes
    }
}

/// Selects the files of `partition` to compact within `max_bytes`, as
/// [`filter_parquet_files_inner`] does, and bundles them with the partition.
pub fn filter_parquet_files<P>(
    partition: Arc<P>,
    parquet_files_for_compaction: ParquetFilesForCompaction,
    max_bytes: u64,
) -> (r: (FilteredFiles<P>, Option<CandidateMetrics>))
    requires
        costs_fit(parquet_files_for_compaction.level_0@, parquet_files_for_compaction.level_1@),
    ensures
        r.0.file_seq() == selected_files(
            parquet_files_for_compaction.level_0@,
            parquet_files_for_compaction.level_1@,
            max_bytes as int,
        ),
        r.0.budget() == reported_budget(
            parquet_files_for_compaction.level_0@,
            parquet_files_for_compaction.level_1@,
            max_bytes as int,
        ),
        r.0.partition_ref() == partition,
        r.1 is Some <==> parquet_files_for_compaction.level_0@.len() > 0 && !stops_over_budget(
            parquet_files_for_compaction.level_0@,
            parquet_files_for_compaction.level_1@,
            max_bytes as int,
        ),
        r.1 matches Some(m) ==> m.describes(
            parquet_files_for_compaction.level_0@,
            parquet_files_for_compaction.level_1@,
            max_bytes as int,
        ),
{
    let (files, budget_bytes, metrics) = filter_parquet_files_inner(
        parquet_files_for_compaction,
        max_bytes,
    );
    (FilteredFiles { files, budget_bytes, partition }, metrics)
}

/// Splits `remaining` into the files that overlap `level_0_file` and those that do not, keeping
/// their order, and sums the estimated sizes of the overlapping ones.
fn partition_overlaps(remaining: &Vec<CompactorParquetFile>, level_0_file: &CompactorParquetFile) -> (r: (
    Vec<CompactorParquetFile>,
    Vec<CompactorParquetFile>,
    u64,
))
    requires
        sum_estimated(remaining@) <= u64::MAX,
    ensures
        r.0@ == overlapping(remaining@, *level_0_file),
        r.1@ == non_overlapping(remaining@, *level_0_file),
        r.2 == sum_estimated(r.0@),
{
    let mut overlaps: Vec<CompactorParquetFile> = Vec::new();
    let mut non_overlaps: Vec<CompactorParquetFile> = Vec::new();
    let mut overlaps_bytes: u64 = 0;
    let mut i: usize = 0;
    while i < remaining.len()
        invariant
            i <= remaining.len(),
            sum_estimated(remaining@) <= u64::MAX,
            overlaps@ == overlapping(remaining@.take(i as int), *level_0_file),
            non_overlaps@ == non_overlapping(remaining@.take(i as int), *level_0_file),
            overlaps_bytes == sum_estimated(overlaps@),
        decreases remaining.len() - i,
    {
        let level_1_file = remaining[i];
        proof {
            let t = remaining@.take(i + 1);
            assert(t.drop_last() =~= remaining@.take(i as int));
            lemma_split(t, *level_0_file);
            lemma_sum_nonneg(non_overlapping(t, *level_0_file));
            lemma_sum_take_le(remaining@, i + 1);
            lemma_sum_push(overlaps@, level_1_file);
        }
        if overlaps_in_time(&level_1_file, level_0_file) {
            overlaps_bytes = overlaps_bytes + level_1_file.estimated_arrow_bytes;
            overlaps.push(level_1_file);
        } else {
            non_overlaps.push(level_1_file);
        }
        i = i + 1;
    }
    assert(remaining@.take(remaining@.len() as int) =~= remaining@);
    (overlaps, non_overlaps, overlaps_bytes)
}

/// Selects, from the level-0 files in order, the longest run whose groups (each level-0 file
/// with the level-1 files it is the first to overlap) fit in `max_bytes`, and returns the
/// claimed level-1 files followed by the accepted level-0 files, with their estimated cost.
///
/// When the first group that does not fit comes before any cost was accumulated, no files are
/// returned and the cost is that group's. The measurements are handed back only when the
/// selection ran to the end of its pass.
pub fn filter_parquet_files_inner(
    parquet_files_for_compaction: ParquetFilesForCompaction,
    max_bytes: u64,
) -> (r: (Vec<CompactorParquetFile>, u64, Option<CandidateMetrics>))
    requires
        costs_fit(parquet_files_for_compaction.level_0@, parquet_files_for_compaction.level_1@),
    ensures
        r.0@ == selected_files(
            parquet_files_for_compaction.level_0@,
            parquet_files_for_compaction.level_1@,
            max_bytes as int,
        ),
        r.1 == reported_budget(
            parquet_files_for_compaction.level_0@,
            parquet_files_for_compaction.level_1@,
            max_bytes as int,
        ),
        r.2 is Some <==> parquet_files_for_compaction.level_0@.len() > 0 && !stops_over_budget(
            parquet_files_for_compaction.level_0@,
            parquet_files_for_compaction.level_1@,
            max_bytes as int,
        ),
        r.2 matches Some(m) ==> m.describes(
            parquet_files_for_compaction.level_0@,
            parquet_files_for_compaction.level_1@,
            max_bytes as int,
        ),
{
    let ParquetFilesForCompaction { level_0, level_1, .. } = parquet_files_for_compaction;
    let ghost l0 = level_0@;
    let ghost l1 = level_1@;
    if level_0.len() == 0 {
        return (Vec::new(), 0, None);
    }
    let level_1_considering = level_1.len();
    let mut remaining: Vec<CompactorParquetFile> = level_1;
    let mut files_to_return: Vec<CompactorParquetFile> = Vec::new();
    let mut level_0_to_return: Vec<CompactorParquetFile> = Vec::new();
    let mut total_estimated_budget: u64 = 0;
    let mut i: usize = 0;
    while i < level_0.len()
        invariant
            level_0@ == l0,
            l0 == parquet_files_for_compaction.level_0@,
            l1 == parquet_files_for_compaction.level_1@,
            costs_fit(l0, l1),
            i <= l0.len(),
            total_estimated_budget == prefix_cost(l0, l1, i as nat),
            accepted_count(l0, l1, max_bytes as int) == accepted_from(
                l0,
                l1,
                max_bytes as int,
                i as nat,
            ),
            remaining@ == remaining_level_1(l0, l1, i as nat),
            files_to_return@ == selected_level_1(l0, l1, i as nat),
            level_0_to_return@ == l0.take(i as int),
        ensures
            i <= l0.len(),
            i == l0.len() || total_estimated_budget > 0,
            total_estimated_budget == prefix_cost(l0, l1, i as nat),
            accepted_count(l0, l1, max_bytes as int) == i,
            files_to_return@ == selected_level_1(l0, l1, i as nat),
            level_0_to_return@ == l0.take(i as int),
        decreases l0.len() - i,
    {
        let level_0_file = level_0[i];
        proof {
            lemma_accounting(l0, l1, i as nat);
            lemma_sum_nonneg(selected_level_1(l0, l1, i as nat));
            lemma_sum_nonneg(l0);
            lemma_prefix_cost_bounded(l0, l1, (i + 1) as nat);
        }
        let (overlaps, non_overlaps, overlaps_bytes) = partition_overlaps(
            &remaining,
            &level_0_file,
        );
        let estimated_file_bytes = level_0_file.estimated_arrow_bytes + overlaps_bytes;
        assert(prefix_cost(l0, l1, (i + 1) as nat) == total_estimated_budget + estimated_file_bytes);
        if total_estimated_budget + estimated_file_bytes > max_bytes {
            if total_estimated_budget == 0 {
                assert(accepted_from(l0, l1, max_bytes as int, i as nat) == i);
                return (Vec::new(), estimated_file_bytes, None);
            } else {
                break;
            }
        }
        total_estimated_budget = total_estimated_budget + estimated_file_bytes;
        let mut claimed = overlaps;
        files_to_return.append(&mut claimed);
        remaining = non_overlaps;
        level_0_to_return.push(level_0_file);
        proof {
            assert(l0.take(i + 1) =~= l0.take(i as int).push(l0[i as int]));
        }
        i = i + 1;
    }
    proof {
        lemma_accounting(l0, l1, i as nat);
    }
    let metrics = CandidateMetrics {
        files: file_count_metrics(
            level_0.len() as u64,
            level_1_considering as u64,
            level_0_to_return.len() as u64,
            files_to_return.len() as u64,
        ),
        bytes: ByteMetrics {
            level_0_sizes: file_sizes(&level_0_to_return),
            level_1_sizes: file_sizes(&files_to_return),
            level_0_estimated_compacting_budgets: estimated_bytes(&level_0_to_return),
            level_1_estimated_compacting_budgets: estimated_bytes(&files_to_return),
        },
    };
    let mut files = files_to_return;
    let mut level_0_files = level_0_to_return;
    files.append(&mut level_0_files);
    (files, total_estimated_budget, Some(metrics))
}

} // verus!
