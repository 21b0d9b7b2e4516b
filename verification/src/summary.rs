//! Aggregate numbers for the dashboard's overview cards.

use vstd::prelude::*;
use crate::models::Status;

verus! {

/// Aggregate numbers across every configuration that is not archived.
#[derive(Debug)]
pub struct DashboardSummary {
    pub configuration_count: usize,
    /// Files present on disk right now, summed over the configurations (a
    /// directory counts every file below it, ignored names skipped).
    pub file_count: usize,
    pub total_size_bytes: u64,
    pub modified_count: usize,
    pub missing_count: usize,
    pub snapshot_count: usize,
}

/// How many of `s` are `st`.
pub open spec fn count_status(s: Seq<Status>, st: Status) -> nat
    decreases s.len(),
{
    if s.len() == 0 {
        0
    } else {
        count_status(s.drop_last(), st) + if s.last() == st { 1nat } else { 0nat }
    }
}

/// The sum of some counts.
pub open spec fn total(s: Seq<int>) -> int
    decreases s.len(),
{
    if s.len() == 0 {
        0
    } else {
        total(s.drop_last()) + s.last()
    }
}

/// `x`, or `cap` if `x` is larger.
pub open spec fn capped(x: int, cap: int) -> int {
    if x > cap {
        cap
    } else {
        x
    }
}

pub open spec fn counts_of(v: Seq<usize>) -> Seq<int> {
    v.map_values(|x: usize| x as int)
}

pub open spec fn sizes_of(v: Seq<Option<u64>>) -> Seq<int> {
    v.map_values(|x: Option<u64>| match x {
        Some(n) => n as int,
        None => 0,
    })
}

proof fn lemma_count_status_bound(s: Seq<Status>, st: Status)
    ensures
        count_status(s, st) <= s.len(),
    decreases s.len(),
{
    if s.len() > 0 {
        lemma_count_status_bound(s.drop_last(), st);
    }
}

/// Among some statuses, those that are `Modified` and those that are
/// `Missing` together are no more than all of them.
pub proof fn lemma_modified_and_missing(s: Seq<Status>)
    ensures
        count_status(s, Status::Modified) + count_status(s, Status::Missing) <= s.len(),
    decreases s.len(),
{
    if s.len() > 0 {
        lemma_modified_and_missing(s.drop_last());
    }
}

proof fn lemma_total_nonneg(s: Seq<int>)
    requires
        forall|i: int| 0 <= i < s.len() ==> s[i] >= 0,
    ensures
        total(s) >= 0,
    decreases s.len(),
{
    if s.len() > 0 {
        lemma_total_nonneg(s.drop_last());
    }
}

/// `s` summarizes configurations with the given statuses, file counts,
/// sizes and snapshot counts (one of each per configuration; see
/// [`summarize`]).
pub open spec fn summarized(
    statuses: Seq<Status>,
    file_counts: Seq<usize>,
    sizes: Seq<Option<u64>>,
    snapshot_counts: Seq<usize>,
    s: DashboardSummary,
) -> bool {
    &&& s.configuration_count == statuses.len()
    &&& s.modified_count == count_status(statuses, Status::Modified)
    &&& s.missing_count == count_status(statuses, Status::Missing)
    &&& s.file_count == capped(total(counts_of(file_counts)), usize::MAX as int)
    &&& s.total_size_bytes == capped(total(sizes_of(sizes)), u64::MAX as int)
    &&& s.snapshot_count == capped(total(counts_of(snapshot_counts)), usize::MAX as int)
}

/// The summary of the configurations whose statuses, file counts, sizes and
/// snapshot counts are given (one of each per configuration). The sums of
/// files, bytes and snapshots stop at the largest value their type holds.
pub fn summarize(
    statuses: &Vec<Status>,
    file_counts: &Vec<usize>,
    sizes: &Vec<Option<u64>>,
    snapshot_counts: &Vec<usize>,
) -> (r: DashboardSummary)
    requires
        file_counts.len() == statuses.len(),
        sizes.len() == statuses.len(),
        snapshot_counts.len() == statuses.len(),
    ensures
        r.configuration_count == statuses.len(),
        r.modified_count == count_status(statuses@, Status::Modified),
        r.missing_count == count_status(statuses@, Status::Missing),
        r.file_count == capped(total(counts_of(file_counts@)), usize::MAX as int),
        r.total_size_bytes == capped(total(sizes_of(sizes@)), u64::MAX as int),
        r.snapshot_count == capped(total(counts_of(snapshot_counts@)), usize::MAX as int),
{
    let mut modified: usize = 0;
    let mut missing: usize = 0;
    let mut files: usize = 0;
    let mut bytes: u64 = 0;
    let mut snaps: usize = 0;
    let mut i: usize = 0;
    while i < statuses.len()
        invariant
            i <= statuses.len(),
            file_counts.len() == statuses.len(),
            sizes.len() == statuses.len(),
            snapshot_counts.len() == statuses.len(),
            modified == count_status(statuses@.take(i as int), Status::Modified),
            missing == count_status(statuses@.take(i as int), Status::Missing),
            files == capped(total(counts_of(file_counts@.take(i as int))), usize::MAX as int),
            bytes == capped(total(sizes_of(sizes@.take(i as int))), u64::MAX as int),
            snaps == capped(total(counts_of(snapshot_counts@.take(i as int))), usize::MAX as int),
        decreases statuses.len() - i,
    {
        let ghost i1 = (i + 1) as int;
        assert(statuses@.take(i1).drop_last() =~= statuses@.take(i as int));
        assert(counts_of(file_counts@.take(i1)).drop_last() =~= counts_of(file_counts@.take(i as int)));
        assert(sizes_of(sizes@.take(i1)).drop_last() =~= sizes_of(sizes@.take(i as int)));
        assert(counts_of(snapshot_counts@.take(i1)).drop_last() =~= counts_of(snapshot_counts@.take(i as int)));
        proof {
            lemma_count_status_bound(statuses@.take(i as int), Status::Modified);
            lemma_count_status_bound(statuses@.take(i as int), Status::Missing);
            lemma_total_nonneg(counts_of(file_counts@.take(i as int)));
            lemma_total_nonneg(sizes_of(sizes@.take(i as int)));
            lemma_total_nonneg(counts_of(snapshot_counts@.take(i as int)));
        }
        match statuses[i] {
            Status::Modified => {
                modified = modified + 1;
            },
            Status::Missing => {
                missing = missing + 1;
            },
            _ => {},
        }
        files = files.saturating_add(file_counts[i]);
        let size: u64 = match sizes[i] {
            Some(n) => n,
            None => 0,
        };
        bytes = bytes.saturating_add(size);
        snaps = snaps.saturating_add(snapshot_counts[i]);
        i = i + 1;
    }
    assert(statuses@.take(statuses.len() as int) =~= statuses@);
    assert(file_counts@.take(statuses.len() as int) =~= file_counts@);
    assert(sizes@.take(statuses.len() as int) =~= sizes@);
    assert(snapshot_counts@.take(statuses.len() as int) =~= snapshot_counts@);
    DashboardSummary {
        configuration_count: statuses.len(),
        file_count: files,
        total_size_bytes: bytes,
        modified_count: modified,
        missing_count: missing,
        snapshot_count: snaps,
    }
}

} // verus!
