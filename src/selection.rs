//! The mathematical model of budget-aware file selection, and the lemmas the selector's proof
//! rests on.
use vstd::prelude::*;
use vstd::seq_lib::lemma_multiset_commutative;
use crate::parquet_file::{CompactorParquetFile, overlaps};

verus! {

broadcast use vstd::seq_lib::group_to_multiset_ensures, vstd::multiset::group_multiset_axioms;

/// The files of `s` whose time range overlaps that of `b`, in their order in `s`.
pub open spec fn overlapping(s: Seq<CompactorParquetFile>, b: CompactorParquetFile) -> Seq<
    CompactorParquetFile,
>
    decreases s.len(),
{
    if s.len() == 0 {
        Seq::empty()
    } else if overlaps(s.last(), b) {
        overlapping(s.drop_last(), b).push(s.last())
    } else {
        overlapping(s.drop_last(), b)
    }
}

/// The files of `s` whose time range does not overlap that of `b`, in their order in `s`.
pub open spec fn non_overlapping(s: Seq<CompactorParquetFile>, b: CompactorParquetFile) -> Seq<
    CompactorParquetFile,
>
    decreases s.len(),
{
    if s.len() == 0 {
        Seq::empty()
    } else if overlaps(s.last(), b) {
        non_overlapping(s.drop_last(), b)
    } else {
        non_overlapping(s.drop_last(), b).push(s.last())
    }
}

/// Sum of the estimated in-memory sizes of a sequence of files.
pub open spec fn sum_estimated(s: Seq<CompactorParquetFile>) -> int
    decreases s.len(),
{
    if s.len() == 0 {
        0
    } else {
        sum_estimated(s.drop_last()) + s.last().estimated_arrow_bytes
    }
}

/// The level-1 files that no level-0 file among the first `j` overlaps.
pub open spec fn remaining_level_1(
    l0: Seq<CompactorParquetFile>,
    l1: Seq<CompactorParquetFile>,
    j: nat,
) -> Seq<CompactorParquetFile>
    decreases j,
{
    if j == 0 {
        l1
    } else {
        non_overlapping(remaining_level_1(l0, l1, (j - 1) as nat), l0[j - 1])
    }
}

/// The level-1 files claimed by level-0 file `j`: those it overlaps and no earlier level-0 file
/// overlaps, in level-1 order.
pub open spec fn matched_level_1(
    l0: Seq<CompactorParquetFile>,
    l1: Seq<CompactorParquetFile>,
    j: nat,
) -> Seq<CompactorParquetFile> {
    overlapping(remaining_level_1(l0, l1, j), l0[j as int])
}

/// Estimated cost of compacting level-0 file `j` together with the level-1 files it claims.
pub open spec fn group_cost(l0: Seq<CompactorParquetFile>, l1: Seq<CompactorParquetFile>, j: nat) -> int {
    l0[j as int].estimated_arrow_bytes + sum_estimated(matched_level_1(l0, l1, j))
}

/// The level-1 files claimed by the first `k` level-0 files, grouped by the claiming file.
pub open spec fn selected_level_1(
    l0: Seq<CompactorParquetFile>,
    l1: Seq<CompactorParquetFile>,
    k: nat,
) -> Seq<CompactorParquetFile>
    decreases k,
{
    if k == 0 {
        Seq::empty()
    } else {
        selected_level_1(l0, l1, (k - 1) as nat) + matched_level_1(l0, l1, (k - 1) as nat)
    }
}

/// Estimated cost of the first `k` groups.
pub open spec fn prefix_cost(l0: Seq<CompactorParquetFile>, l1: Seq<CompactorParquetFile>, k: nat) -> int
    decreases k,
{
    if k == 0 {
        0
    } else {
        prefix_cost(l0, l1, (k - 1) as nat) + group_cost(l0, l1, (k - 1) as nat)
    }
}

/// Having accepted the first `k` level-0 files, how many the selector accepts in all: it goes
/// on while the next group still fits in `max_bytes`.
pub open spec fn accepted_from(
    l0: Seq<CompactorParquetFile>,
    l1: Seq<CompactorParquetFile>,
    max_bytes: int,
    k: nat,
) -> nat
    decreases l0.len() - k,
{
    if k < l0.len() && prefix_cost(l0, l1, k + 1) <= max_bytes {
        accepted_from(l0, l1, max_bytes, k + 1)
    } else {
        k
    }
}

/// Number of level-0 files the selector accepts: the longest prefix whose groups fit the budget.
pub open spec fn accepted_count(
    l0: Seq<CompactorParquetFile>,
    l1: Seq<CompactorParquetFile>,
    max_bytes: int,
) -> nat {
    accepted_from(l0, l1, max_bytes, 0)
}

/// The selector halts on a group that does not fit before any cost was accumulated, and then
/// returns no files at all.
pub open spec fn stops_over_budget(
    l0: Seq<CompactorParquetFile>,
    l1: Seq<CompactorParquetFile>,
    max_bytes: int,
) -> bool {
    let k = accepted_count(l0, l1, max_bytes);
    k < l0.len() && prefix_cost(l0, l1, k) == 0
}

/// The files the selector returns: the claimed level-1 files, then the accepted level-0 files
/// in their input order.
pub open spec fn selected_files(
    l0: Seq<CompactorParquetFile>,
    l1: Seq<CompactorParquetFile>,
    max_bytes: int,
) -> Seq<CompactorParquetFile> {
    if stops_over_budget(l0, l1, max_bytes) {
        Seq::empty()
    } else {
        let k = accepted_count(l0, l1, max_bytes);
        selected_level_1(l0, l1, k) + l0.take(k as int)
    }
}

/// The cost the selector reports: that of the accepted groups, or, when it stops over budget,
/// that of the first group that did not fit.
pub open spec fn reported_budget(
    l0: Seq<CompactorParquetFile>,
    l1: Seq<CompactorParquetFile>,
    max_bytes: int,
) -> int {
    let k = accepted_count(l0, l1, max_bytes);
    if stops_over_budget(l0, l1, max_bytes) {
        group_cost(l0, l1, k)
    } else {
        prefix_cost(l0, l1, k)
    }
}

/// The estimated sizes of all input files fit in a `u64`.
pub open spec fn costs_fit(l0: Seq<CompactorParquetFile>, l1: Seq<CompactorParquetFile>) -> bool {
    sum_estimated(l0) + sum_estimated(l1) <= u64::MAX
}

pub proof fn lemma_sum_nonneg(s: Seq<CompactorParquetFile>)
    ensures
        sum_estimated(s) >= 0,
    decreases s.len(),
{
    if s.len() > 0 {
        lemma_sum_nonneg(s.drop_last());
    }
}

pub proof fn lemma_sum_push(s: Seq<CompactorParquetFile>, f: CompactorParquetFile)
    ensures
        sum_estimated(s.push(f)) == sum_estimated(s) + f.estimated_arrow_bytes,
{
    assert(s.push(f).drop_last() =~= s);
}

pub proof fn lemma_sum_concat(a: Seq<CompactorParquetFile>, b: Seq<CompactorParquetFile>)
    ensures
        sum_estimated(a + b) == sum_estimated(a) + sum_estimated(b),
    decreases b.len(),
{
    if b.len() == 0 {
        assert(a + b =~= a);
    } else {
        lemma_sum_concat(a, b.drop_last());
        assert((a + b).drop_last() =~= a + b.drop_last());
    }
}

pub proof fn lemma_sum_take_le(s: Seq<CompactorParquetFile>, i: int)
    requires
        0 <= i <= s.len(),
    ensures
        sum_estimated(s.take(i)) <= sum_estimated(s),
    decreases s.len(),
{
    if i == s.len() {
        assert(s.take(i) =~= s);
    } else {
        assert(s.take(i) =~= s.drop_last().take(i));
        lemma_sum_take_le(s.drop_last(), i);
    }
}

/// Splitting by overlap loses and duplicates nothing.
pub proof fn lemma_split(s: Seq<CompactorParquetFile>, b: CompactorParquetFile)
    ensures
        overlapping(s, b).len() + non_overlapping(s, b).len() == s.len(),
        sum_estimated(overlapping(s, b)) + sum_estimated(non_overlapping(s, b)) == sum_estimated(s),
        overlapping(s, b).to_multiset().add(non_overlapping(s, b).to_multiset()) =~= s.to_multiset(),
    decreases s.len(),
{
    if s.len() > 0 {
        let p = s.drop_last();
        lemma_split(p, b);
        assert(p.push(s.last()) =~= s);
        lemma_sum_push(overlapping(p, b), s.last());
        lemma_sum_push(non_overlapping(p, b), s.last());
    }
}

/// What the first `j` level-0 files claimed and what remains together make up the level-1 input.
pub proof fn lemma_accounting(l0: Seq<CompactorParquetFile>, l1: Seq<CompactorParquetFile>, j: nat)
    requires
        j <= l0.len(),
    ensures
        selected_level_1(l0, l1, j).len() + remaining_level_1(l0, l1, j).len() == l1.len(),
        sum_estimated(selected_level_1(l0, l1, j)) + sum_estimated(remaining_level_1(l0, l1, j))
            == sum_estimated(l1),
        selected_level_1(l0, l1, j).to_multiset().add(remaining_level_1(l0, l1, j).to_multiset())
            =~= l1.to_multiset(),
    decreases j,
{
    if j > 0 {
        let i = (j - 1) as nat;
        lemma_accounting(l0, l1, i);
        lemma_split(remaining_level_1(l0, l1, i), l0[i as int]);
        lemma_sum_concat(selected_level_1(l0, l1, i), matched_level_1(l0, l1, i));
        lemma_multiset_commutative(selected_level_1(l0, l1, i), matched_level_1(l0, l1, i));
    }
}

/// The cost of the first `k` groups is the estimated size of the files they hold.
pub proof fn lemma_prefix_cost(l0: Seq<CompactorParquetFile>, l1: Seq<CompactorParquetFile>, k: nat)
    requires
        k <= l0.len(),
    ensures
        prefix_cost(l0, l1, k) == sum_estimated(l0.take(k as int)) + sum_estimated(
            selected_level_1(l0, l1, k),
        ),
    decreases k,
{
    if k > 0 {
        let i = (k - 1) as nat;
        lemma_prefix_cost(l0, l1, i);
        assert(l0.take(k as int).drop_last() =~= l0.take(i as int));
        lemma_sum_concat(selected_level_1(l0, l1, i), matched_level_1(l0, l1, i));
    }
}

/// The cost of the first `k` groups never exceeds the estimated size of all inputs.
pub proof fn lemma_prefix_cost_bounded(
    l0: Seq<CompactorParquetFile>,
    l1: Seq<CompactorParquetFile>,
    k: nat,
)
    requires
        k <= l0.len(),
    ensures
        0 <= prefix_cost(l0, l1, k) <= sum_estimated(l0) + sum_estimated(l1),
{
    lemma_prefix_cost(l0, l1, k);
    lemma_accounting(l0, l1, k);
    lemma_sum_take_le(l0, k as int);
    lemma_sum_nonneg(l0.take(k as int));
    lemma_sum_nonneg(selected_level_1(l0, l1, k));
    lemma_sum_nonneg(remaining_level_1(l0, l1, k));
}

} // verus!
