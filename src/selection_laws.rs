//! What holds of every selection: no file twice, level-1 files before level-0 files, and the
//! outcomes of the edge cases.
use vstd::prelude::*;
use vstd::seq_lib::lemma_multiset_commutative;
use crate::parquet_file::{CompactorParquetFile, overlaps};
use crate::parquet_file_filtering::{FilterResult, FilteredFiles, filter_outcome};
use crate::selection::{
    accepted_count, accepted_from, group_cost, lemma_accounting, lemma_prefix_cost,
    lemma_sum_concat, lemma_sum_nonneg, matched_level_1, overlapping, prefix_cost,
    remaining_level_1, reported_budget, selected_files, selected_level_1, stops_over_budget,
    sum_estimated,
};

verus! {

broadcast use vstd::seq_lib::group_to_multiset_ensures, vstd::multiset::group_multiset_axioms;

proof fn lemma_accepted_in_range(
    l0: Seq<CompactorParquetFile>,
    l1: Seq<CompactorParquetFile>,
    max_bytes: int,
    j: nat,
)
    requires
        j <= l0.len(),
    ensures
        j <= accepted_from(l0, l1, max_bytes, j) <= l0.len(),
    decreases l0.len() - j,
{
    if j < l0.len() && prefix_cost(l0, l1, j + 1) <= max_bytes {
        lemma_accepted_in_range(l0, l1, max_bytes, j + 1);
    }
}

proof fn lemma_prefix_cost_monotone(
    l0: Seq<CompactorParquetFile>,
    l1: Seq<CompactorParquetFile>,
    j: nat,
    k: nat,
)
    requires
        j <= k <= l0.len(),
    ensures
        prefix_cost(l0, l1, j) <= prefix_cost(l0, l1, k),
    decreases k - j,
{
    if j < k {
        lemma_prefix_cost_monotone(l0, l1, j, (k - 1) as nat);
        lemma_sum_nonneg(matched_level_1(l0, l1, (k - 1) as nat));
    }
}

proof fn lemma_accepted_from_fits(
    l0: Seq<CompactorParquetFile>,
    l1: Seq<CompactorParquetFile>,
    max_bytes: int,
    j: nat,
    n: nat,
)
    requires
        j <= n <= l0.len(),
        prefix_cost(l0, l1, n) <= max_bytes,
        n == l0.len() || prefix_cost(l0, l1, n + 1) > max_bytes,
    ensures
        accepted_from(l0, l1, max_bytes, j) == n,
    decreases n - j,
{
    if j < n {
        lemma_prefix_cost_monotone(l0, l1, j + 1, n);
        lemma_accepted_from_fits(l0, l1, max_bytes, j + 1, n);
    }
}

proof fn lemma_overlapping_none(s: Seq<CompactorParquetFile>, b: CompactorParquetFile)
    requires
        forall|i: int| 0 <= i < s.len() ==> !overlaps(#[trigger] s[i], b),
    ensures
        overlapping(s, b) == Seq::<CompactorParquetFile>::empty(),
    decreases s.len(),
{
    if s.len() > 0 {
        assert(!overlaps(s[s.len() - 1], b));
        lemma_overlapping_none(s.drop_last(), b);
    }
}

/// Every file occurs in the selection at most as often as in the input.
pub proof fn lemma_selection_within_input(
    l0: Seq<CompactorParquetFile>,
    l1: Seq<CompactorParquetFile>,
    max_bytes: u64,
)
    ensures
        forall|f: CompactorParquetFile|
            #[trigger] selected_files(l0, l1, max_bytes as int).to_multiset().count(f) <= (l0
                + l1).to_multiset().count(f),
{
    let k = accepted_count(l0, l1, max_bytes as int);
    lemma_accepted_in_range(l0, l1, max_bytes as int, 0);
    lemma_multiset_commutative(l0, l1);
    if !stops_over_budget(l0, l1, max_bytes as int) {
        let taken = l0.take(k as int);
        lemma_accounting(l0, l1, k);
        lemma_multiset_commutative(selected_level_1(l0, l1, k), taken);
        assert(l0 =~= taken + l0.skip(k as int));
        lemma_multiset_commutative(taken, l0.skip(k as int));
    }
}

/// A file given once is selected at most once, even when it overlaps several accepted level-0
/// files.
pub proof fn lemma_no_file_twice(
    l0: Seq<CompactorParquetFile>,
    l1: Seq<CompactorParquetFile>,
    max_bytes: u64,
)
    requires
        (l0 + l1).no_duplicates(),
    ensures
        selected_files(l0, l1, max_bytes as int).no_duplicates(),
{
    let out = selected_files(l0, l1, max_bytes as int);
    lemma_selection_within_input(l0, l1, max_bytes);
    (l0 + l1).lemma_multiset_has_no_duplicates();
    assert forall|f: CompactorParquetFile| out.to_multiset().contains(f) implies out.to_multiset().count(
        f,
    ) == 1 by {
        assert(out.to_multiset().count(f) <= (l0 + l1).to_multiset().count(f));
    }
    out.lemma_multiset_has_no_duplicates_conv();
}

/// `out` splits at `m` into files of `l1`, then the first level-0 files in input order.
pub open spec fn splits_into_levels(
    out: Seq<CompactorParquetFile>,
    l0: Seq<CompactorParquetFile>,
    l1: Seq<CompactorParquetFile>,
    m: int,
) -> bool {
    &&& 0 <= m <= out.len()
    &&& forall|i: int| 0 <= i < m ==> l1.contains(#[trigger] out[i])
    &&& out.subrange(m, out.len() as int) == l0.take(out.len() - m)
}

/// The selection is a run of level-1 input files followed by a prefix of the level-0 input, in
/// input order.
pub proof fn lemma_level_1_then_level_0(
    l0: Seq<CompactorParquetFile>,
    l1: Seq<CompactorParquetFile>,
    max_bytes: u64,
)
    ensures
        exists|m: int| splits_into_levels(selected_files(l0, l1, max_bytes as int), l0, l1, m),
{
    let out = selected_files(l0, l1, max_bytes as int);
    let k = accepted_count(l0, l1, max_bytes as int);
    lemma_accepted_in_range(l0, l1, max_bytes as int, 0);
    if stops_over_budget(l0, l1, max_bytes as int) {
        assert(out.subrange(0, out.len() as int) =~= l0.take(out.len() - 0));
        assert(splits_into_levels(out, l0, l1, 0));
    } else {
        let sel = selected_level_1(l0, l1, k);
        let m = sel.len() as int;
        lemma_accounting(l0, l1, k);
        assert forall|i: int| 0 <= i < m implies l1.contains(#[trigger] out[i]) by {
            assert(out[i] == sel[i]);
            assert(sel.contains(sel[i]));
            assert(sel.to_multiset().count(sel[i]) > 0);
            assert(l1.to_multiset().count(sel[i]) > 0);
        }
        assert(out.subrange(m, out.len() as int) =~= l0.take(out.len() - m));
        assert(splits_into_levels(out, l0, l1, m));
    }
}

/// With no level-0 file, nothing is selected, the cost is zero and there is nothing to compact.
pub proof fn lemma_empty_level_0(
    l0: Seq<CompactorParquetFile>,
    l1: Seq<CompactorParquetFile>,
    max_bytes: u64,
)
    requires
        l0.len() == 0,
    ensures
        selected_files(l0, l1, max_bytes as int) == Seq::<CompactorParquetFile>::empty(),
        reported_budget(l0, l1, max_bytes as int) == 0,
        filter_outcome(selected_files(l0, l1, max_bytes as int), reported_budget(l0, l1, max_bytes as int))
            == FilterResult::NothingToCompact,
{
    assert(selected_files(l0, l1, max_bytes as int) =~= Seq::<CompactorParquetFile>::empty());
}

/// A lone level-0 file that overlaps no level-1 file and costs more than the budget: nothing
/// is selected, its cost is reported, and the outcome is over budget.
pub proof fn lemma_single_file_over_budget(
    l0: Seq<CompactorParquetFile>,
    l1: Seq<CompactorParquetFile>,
    max_bytes: u64,
)
    requires
        l0.len() == 1,
        forall|i: int| 0 <= i < l1.len() ==> !overlaps(#[trigger] l1[i], l0[0]),
        max_bytes < l0[0].estimated_arrow_bytes,
    ensures
        selected_files(l0, l1, max_bytes as int) == Seq::<CompactorParquetFile>::empty(),
        reported_budget(l0, l1, max_bytes as int) == l0[0].estimated_arrow_bytes,
        filter_outcome(selected_files(l0, l1, max_bytes as int), reported_budget(l0, l1, max_bytes as int))
            == FilterResult::OverBudget,
{
    lemma_overlapping_none(l1, l0[0]);
    assert(remaining_level_1(l0, l1, 0) == l1);
    assert(sum_estimated(matched_level_1(l0, l1, 0)) == 0);
    assert(group_cost(l0, l1, 0) == l0[0].estimated_arrow_bytes);
    assert(prefix_cost(l0, l1, 0) == 0);
    assert(prefix_cost(l0, l1, 1) == group_cost(l0, l1, 0));
    assert(accepted_from(l0, l1, max_bytes as int, 0) == 0);
}

/// When the first `n` groups fit the budget and the next one does not (or there is none), the
/// selection is the level-1 files those `n` level-0 files claim followed by those files, and
/// the reported cost is the estimated size of everything selected.
pub proof fn lemma_first_groups_selected(
    l0: Seq<CompactorParquetFile>,
    l1: Seq<CompactorParquetFile>,
    max_bytes: u64,
    n: nat,
)
    requires
        1 <= n <= l0.len(),
        prefix_cost(l0, l1, n) <= max_bytes,
        n == l0.len() || prefix_cost(l0, l1, n + 1) > max_bytes,
        n == l0.len() || prefix_cost(l0, l1, n) > 0,
    ensures
        accepted_count(l0, l1, max_bytes as int) == n,
        selected_files(l0, l1, max_bytes as int) == selected_level_1(l0, l1, n) + l0.take(n as int),
        reported_budget(l0, l1, max_bytes as int) == prefix_cost(l0, l1, n),
        reported_budget(l0, l1, max_bytes as int) == sum_estimated(
            selected_files(l0, l1, max_bytes as int),
        ),
{
    lemma_accepted_from_fits(l0, l1, max_bytes as int, 0, n);
    lemma_prefix_cost(l0, l1, n);
    lemma_sum_concat(selected_level_1(l0, l1, n), l0.take(n as int));
}

/// Two bundles that each hold the selection for the same inputs and budget, for the same
/// partition, are identical: re-running the selection changes nothing.
pub proof fn lemma_selection_repeatable<P>(
    a: FilteredFiles<P>,
    b: FilteredFiles<P>,
    l0: Seq<CompactorParquetFile>,
    l1: Seq<CompactorParquetFile>,
    max_bytes: u64,
)
    requires
        a.file_seq() == selected_files(l0, l1, max_bytes as int),
        a.budget() == reported_budget(l0, l1, max_bytes as int),
        b.file_seq() == selected_files(l0, l1, max_bytes as int),
        b.budget() == reported_budget(l0, l1, max_bytes as int),
        a.partition_ref() == b.partition_ref(),
    ensures
        a.file_seq() == b.file_seq(),
        a.budget() == b.budget(),
        filter_outcome(a.file_seq(), a.budget() as int) == filter_outcome(
            b.file_seq(),
            b.budget() as int,
        ),
{
}

} // verus!
