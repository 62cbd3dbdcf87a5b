//! Exact measurements of one selection, for the caller to hand to its metrics sink.
use vstd::prelude::*;
use crate::parquet_file::CompactorParquetFile;
use crate::selection::{accepted_count, selected_level_1};

verus! {

/// How many files of each level were considered and how many were selected.
#[derive(Clone, Copy, Debug, PartialEq, Eq, Structural)]
pub struct FileCountMetrics {
    pub level_0_selected: u64,
    pub level_0_not_selected: u64,
    pub level_1_selected: u64,
    pub level_1_not_selected: u64,
}

/// On-disk sizes and estimated compaction costs of the selected files, per level, in the order
/// of selection.
#[derive(Clone, Debug)]
pub struct ByteMetrics {
    pub level_0_sizes: Vec<u64>,
    pub level_1_sizes: Vec<u64>,
    pub level_0_estimated_compacting_budgets: Vec<u64>,
    pub level_1_estimated_compacting_budgets: Vec<u64>,
}

/// Everything a selection reports to the observability sinks.
#[derive(Clone, Debug)]
pub struct CandidateMetrics {
    pub files: FileCountMetrics,
    pub bytes: ByteMetrics,
}

pub open spec fn sizes_of(s: Seq<CompactorParquetFile>) -> Seq<u64> {
    s.map_values(|f: CompactorParquetFile| f.file_size_bytes)
}

pub open spec fn estimates_of(s: Seq<CompactorParquetFile>) -> Seq<u64> {
    s.map_values(|f: CompactorParquetFile| f.estimated_arrow_bytes)
}

impl CandidateMetrics {
    /// These are the exact measurements of selecting from `l0` and `l1` within `max_bytes`.
    pub open spec fn describes(
        self,
        l0: Seq<CompactorParquetFile>,
        l1: Seq<CompactorParquetFile>,
        max_bytes: int,
    ) -> bool {
        let k = accepted_count(l0, l1, max_bytes);
        let level_1_selected = selected_level_1(l0, l1, k);
        &&& self.files.level_0_selected == k
        &&& self.files.level_0_not_selected == l0.len() - k
        &&& self.files.level_1_selected == level_1_selected.len()
        &&& self.files.level_1_not_selected == l1.len() - level_1_selected.len()
        &&& self.bytes.level_0_sizes@ == sizes_of(l0.take(k as int))
        &&& self.bytes.level_1_sizes@ == sizes_of(level_1_selected)
        &&& self.bytes.level_0_estimated_compacting_budgets@ == estimates_of(l0.take(k as int))
        &&& self.bytes.level_1_estimated_compacting_budgets@ == estimates_of(level_1_selected)
    }
}

/// Counts of selected and not-selected files per level, from the numbers considered and
/// selected.
pub fn file_count_metrics(
    num_level_0_considering: u64,
    num_level_1_considering: u64,
    num_level_0_compacting: u64,
    num_level_1_compacting: u64,
) -> (r: FileCountMetrics)
    requires
        num_level_0_compacting <= num_level_0_considering,
        num_level_1_compacting <= num_level_1_considering,
    ensures
        r.level_0_selected == num_level_0_compacting,
        r.level_0_not_selected == num_level_0_considering - num_level_0_compacting,
        r.level_1_selected == num_level_1_compacting,
        r.level_1_not_selected == num_level_1_considering - num_level_1_compacting,
{
    FileCountMetrics {
        level_0_selected: num_level_0_compacting,
        level_0_not_selected: num_level_0_considering - num_level_0_compacting,
        level_1_selected: num_level_1_compacting,
        level_1_not_selected: num_level_1_considering - num_level_1_compacting,
    }
}

/// The on-disk size of each file, in order.
pub fn file_sizes(files: &Vec<CompactorParquetFile>) -> (r: Vec<u64>)
    ensures
        r@ == sizes_of(files@),
{
    let mut sizes: Vec<u64> = Vec::new();
    let mut i: usize = 0;
    while i < files.len()
        invariant
            i <= files.len(),
            sizes@ == sizes_of(files@.take(i as int)),
        decreases files.len() - i,
    {
        sizes.push(files[i].file_size_bytes);
        i = i + 1;
        assert(sizes@ =~= sizes_of(files@.take(i as int)));
    }
    assert(files@.take(i as int) =~= files@);
    sizes
}

/// The estimated in-memory size of each file, in order.
pub fn estimated_bytes(files: &Vec<CompactorParquetFile>) -> (r: Vec<u64>)
    ensures
        r@ == estimates_of(files@),
{
    let mut estimates: Vec<u64> = Vec::new();
    let mut i: usize = 0;
    while i < files.len()
        invariant
            i <= files.len(),
            estimates@ == estimates_of(files@.take(i as int)),
        decreases files.len() - i,
    {
        estimates.push(files[i].estimated_arrow_bytes);
        i = i + 1;
        assert(estimates@ =~= estimates_of(files@.take(i as int)));
    }
    assert(files@.take(i as int) =~= files@);
    estimates
}

} // verus!
