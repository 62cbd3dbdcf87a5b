//! File metadata records as the compactor sees them, and the time-overlap predicate.
use vstd::prelude::*;

verus! {

/// Metadata of one stored file: identity, partition, closed time range `[min_time, max_time]`,
/// on-disk size, sequence marker and the estimated in-memory size needed to decode it.
#[derive(Clone, Copy, Debug, PartialEq, Eq, Structural)]
pub struct CompactorParquetFile {
    pub id: i64,
    pub partition_id: i64,
    pub min_time: i64,
    pub max_time: i64,
    pub file_size_bytes: u64,
    pub max_sequence_number: i64,
    pub estimated_arrow_bytes: u64,
}

impl CompactorParquetFile {
    /// A file's time range is well formed when its bounds are ordered.
    pub open spec fn wf(self) -> bool {
        self.min_time <= self.max_time
    }
}

/// Whether instant `t` lies in the closed time range of `f`.
pub open spec fn covers(f: CompactorParquetFile, t: int) -> bool {
    f.min_time <= t <= f.max_time
}

/// Whether the closed time intervals of `a` and `b` share an instant, in the form the selector
/// evaluates it.
pub open spec fn overlaps(a: CompactorParquetFile, b: CompactorParquetFile) -> bool {
    (a.min_time <= b.min_time && a.max_time >= b.min_time)
        || (a.min_time > b.min_time && a.min_time <= b.max_time)
}

/// Decides whether the time ranges of two files overlap (inclusive bounds).
pub fn overlaps_in_time(a: &CompactorParquetFile, b: &CompactorParquetFile) -> (r: bool)
    ensures
        r == overlaps(*a, *b),
{
    (a.min_time <= b.min_time && a.max_time >= b.min_time) || (a.min_time > b.min_time
        && a.min_time <= b.max_time)
}

/// For well-formed ranges, overlap does not depend on the order of the two files.
pub proof fn lemma_overlaps_symmetric(a: CompactorParquetFile, b: CompactorParquetFile)
    requires
        a.wf(),
        b.wf(),
    ensures
        overlaps(a, b) == overlaps(b, a),
{
}

/// For well-formed ranges, two files overlap exactly when some instant lies in both ranges.
pub proof fn lemma_overlaps_iff_shared_instant(a: CompactorParquetFile, b: CompactorParquetFile)
    requires
        a.wf(),
        b.wf(),
    ensures
        overlaps(a, b) <==> exists|t: int| #[trigger] covers(a, t) && covers(b, t),
{
    if overlaps(a, b) {
        let t: int = if a.min_time <= b.min_time {
            b.min_time as int
        } else {
            a.min_time as int
        };
        assert(covers(a, t) && covers(b, t));
    }
}

/// Ranges that touch at a single endpoint overlap, ranges with a gap between them do not, and a
/// range overlaps every range it contains.
pub proof fn lemma_overlaps_touching_disjoint_contained(
    a: CompactorParquetFile,
    b: CompactorParquetFile,
)
    requires
        a.wf(),
        b.wf(),
    ensures
        a.max_time == b.min_time ==> overlaps(a, b) && overlaps(b, a),
        a.max_time < b.min_time ==> !overlaps(a, b) && !overlaps(b, a),
        a.min_time <= b.min_time && b.max_time <= a.max_time ==> overlaps(a, b) && overlaps(b, a),
{
}

} // verus!
