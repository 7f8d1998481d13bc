//! Durable progress record for one migration run: which index ranges of the
//! source dataset have been committed, and how far a later run may safely
//! skip ahead.

use vstd::prelude::*;

verus! {

/// Progress record for migrating one dataset.
///
/// `completed_batch_ranges` holds one half-open interval `[start, end)` per
/// successfully committed batch, appended in completion order, which under a
/// concurrent dispatcher is not index order. `processed_records` counts the
/// records of every range ever added (it is deliberately not derived from the
/// ranges and double-counts an overlapping re-add).
#[derive(Debug, Clone)]
pub struct MigrationCheckpoint {
    pub csv_file_path: String,
    pub total_records: usize,
    pub processed_records: usize,
    pub successful_batches: usize,
    pub failed_batches: usize,
    /// `(start_index, end_index)` pairs, one per committed batch.
    pub completed_batch_ranges: Vec<(usize, usize)>,
    /// Unix timestamp of creation, informational only.
    pub start_time: u64,
}

/// A range placed after every range of `s` whose start index does not
/// exceed its own: one step of the stable insertion sort below.
pub open spec fn insert_by_start(x: (usize, usize), s: Seq<(usize, usize)>) -> Seq<(usize, usize)>
    decreases s.len(),
{
    if s.len() == 0 {
        seq![x]
    } else if x.0 < s[0].0 {
        seq![x] + s
    } else {
        seq![s[0]] + insert_by_start(x, s.drop_first())
    }
}

/// The ranges in ascending order of start index, equal starts kept in their
/// original relative order: the sort the resume-point walk runs on.
pub open spec fn sort_by_start(s: Seq<(usize, usize)>) -> Seq<(usize, usize)>
    decreases s.len(),
{
    if s.len() == 0 {
        Seq::empty()
    } else {
        insert_by_start(s.last(), sort_by_start(s.drop_last()))
    }
}

pub open spec fn sorted_by_start(s: Seq<(usize, usize)>) -> bool {
    forall|i: int, j: int| 0 <= i < j < s.len() ==> (#[trigger] s[i]).0 <= (#[trigger] s[j]).0
}

/// The frontier walk over ranges already sorted by start: a range starting at
/// the frontier advances it to the range's end; a range starting beyond the
/// frontier is a gap and stops the walk; a range starting below the frontier
/// is already covered and is skipped without advancing.
pub open spec fn walk_frontier(s: Seq<(usize, usize)>, frontier: usize) -> usize
    decreases s.len(),
{
    if s.len() == 0 {
        frontier
    } else if s[0].0 == frontier {
        walk_frontier(s.drop_first(), s[0].1)
    } else if s[0].0 > frontier {
        frontier
    } else {
        walk_frontier(s.drop_first(), frontier)
    }
}

/// The largest index below which every record is covered by an unbroken chain
/// of completed ranges from index 0.
pub open spec fn safe_resume_point(ranges: Seq<(usize, usize)>) -> usize {
    walk_frontier(sort_by_start(ranges), 0)
}

proof fn lemma_insert_by_start_len(x: (usize, usize), s: Seq<(usize, usize)>)
    ensures
        insert_by_start(x, s).len() == s.len() + 1,
    decreases s.len(),
{
    if s.len() > 0 && !(x.0 < s[0].0) {
        lemma_insert_by_start_len(x, s.drop_first());
    }
}

proof fn lemma_insert_by_start_sorted(x: (usize, usize), s: Seq<(usize, usize)>)
    requires
        sorted_by_start(s),
    ensures
        sorted_by_start(insert_by_start(x, s)),
    decreases s.len(),
{
    lemma_insert_by_start_len(x, s);
    if s.len() == 0 {
    } else if x.0 < s[0].0 {
    } else {
        assert(sorted_by_start(s.drop_first()));
        lemma_insert_by_start_sorted(x, s.drop_first());
        lemma_insert_by_start_len(x, s.drop_first());
        let r = seq![s[0]] + insert_by_start(x, s.drop_first());
        let t = insert_by_start(x, s.drop_first());
        assert forall|i: int, j: int| 0 <= i < j < r.len() implies (#[trigger] r[i]).0 <= (
        #[trigger] r[j]).0 by {
            if i == 0 {
                // every element of t is either x or an element of s.drop_first(),
                // and both have start index at least s[0].0
                lemma_insert_by_start_members(x, s.drop_first(), j - 1);
            } else {
                assert(r[i] == t[i - 1] && r[j] == t[j - 1]);
            }
        }
    }
}

/// Each element of the inserted sequence is the inserted element or one of
/// the originals.
proof fn lemma_insert_by_start_members(x: (usize, usize), s: Seq<(usize, usize)>, i: int)
    requires
        0 <= i < insert_by_start(x, s).len(),
    ensures
        insert_by_start(x, s)[i] == x || exists|j: int|
            0 <= j < s.len() && insert_by_start(x, s)[i] == s[j],
    decreases s.len(),
{
    lemma_insert_by_start_len(x, s);
    if s.len() == 0 {
    } else if x.0 < s[0].0 {
        if i > 0 {
            assert(insert_by_start(x, s)[i] == s[i - 1]);
        }
    } else {
        if i > 0 {
            lemma_insert_by_start_members(x, s.drop_first(), i - 1);
            let t = insert_by_start(x, s.drop_first());
            if t[i - 1] != x {
                let j = choose|j: int| 0 <= j < s.drop_first().len() && t[i - 1] == s.drop_first()[j];
                assert(insert_by_start(x, s)[i] == s[j + 1]);
            }
        }
    }
}

proof fn lemma_sort_by_start_sorted(s: Seq<(usize, usize)>)
    ensures
        sorted_by_start(sort_by_start(s)),
        sort_by_start(s).len() == s.len(),
    decreases s.len(),
{
    if s.len() > 0 {
        lemma_sort_by_start_sorted(s.drop_last());
        lemma_insert_by_start_sorted(s.last(), sort_by_start(s.drop_last()));
        lemma_insert_by_start_len(s.last(), sort_by_start(s.drop_last()));
    }
}

/// Inserting into a sorted sequence at the first position whose start index
/// exceeds the new element's start index splits the sequence there.
proof fn lemma_insert_by_start_at(x: (usize, usize), s: Seq<(usize, usize)>, j: int)
    requires
        sorted_by_start(s),
        0 <= j <= s.len(),
        forall|i: int| 0 <= i < j ==> (#[trigger] s[i]).0 <= x.0,
        j < s.len() ==> x.0 < s[j].0,
    ensures
        insert_by_start(x, s) =~= s.subrange(0, j) + seq![x] + s.subrange(j, s.len() as int),
    decreases s.len(),
{
    if s.len() == 0 {
    } else if x.0 < s[0].0 {
        assert(j == 0);
    } else {
        assert(j >= 1);
        assert(sorted_by_start(s.drop_first()));
        lemma_insert_by_start_at(x, s.drop_first(), j - 1);
        let d = s.drop_first();
        assert(insert_by_start(x, s) =~= seq![s[0]] + (d.subrange(0, j - 1) + seq![x] + d.subrange(
            j - 1,
            d.len() as int,
        )));
    }
}

proof fn lemma_walk_chain(s: Seq<(usize, usize)>, f: usize)
    requires
        s.len() > 0,
        s[0].0 == f,
        forall|i: int| 1 <= i < s.len() ==> (#[trigger] s[i]).0 == s[i - 1].1,
    ensures
        walk_frontier(s, f) == s.last().1,
    decreases s.len(),
{
    if s.len() == 1 {
        let d = s.drop_first();
        assert(d.len() == 0);
        assert(walk_frontier(d, s[0].1) == s[0].1);
    } else {
        let d = s.drop_first();
        assert forall|i: int| 1 <= i < d.len() implies (#[trigger] d[i]).0 == d[i - 1].1 by {
            assert(d[i] == s[i + 1]);
            assert(d[i - 1] == s[i]);
        }
        assert(d[0] == s[1]);
        lemma_walk_chain(d, s[0].1);
        assert(d.last() == s.last());
    }
}

/// Law: if the completed ranges, sorted by start index, tile an interval
/// `[0, k)` contiguously — the first range starts at 0, each later range
/// starts exactly where the previous one ends, and the last range ends at
/// `k`; or there are no ranges and `k` is 0 — then the safe resume point is
/// `k`, whatever order the ranges were recorded in.
pub proof fn lemma_resume_point_of_contiguous_cover(ranges: Seq<(usize, usize)>, k: usize)
    requires
        sort_by_start(ranges).len() == 0 ==> k == 0,
        sort_by_start(ranges).len() > 0 ==> sort_by_start(ranges)[0].0 == 0
            && sort_by_start(ranges).last().1 == k,
        forall|i: int|
            1 <= i < sort_by_start(ranges).len() ==> (#[trigger] sort_by_start(ranges)[i]).0
                == sort_by_start(ranges)[i - 1].1,
    ensures
        safe_resume_point(ranges) == k,
{
    if sort_by_start(ranges).len() > 0 {
        lemma_walk_chain(sort_by_start(ranges), 0);
    }
}

proof fn lemma_sort_by_start_members(s: Seq<(usize, usize)>, i: int)
    requires
        0 <= i < sort_by_start(s).len(),
    ensures
        exists|j: int| 0 <= j < s.len() && sort_by_start(s)[i] == s[j],
    decreases s.len(),
{
    if s.len() > 0 {
        let t = sort_by_start(s.drop_last());
        lemma_sort_by_start_sorted(s.drop_last());
        lemma_insert_by_start_members(s.last(), t, i);
        if sort_by_start(s)[i] == s.last() {
            assert(sort_by_start(s)[i] == s[s.len() - 1]);
        } else {
            let j1 = choose|j1: int| 0 <= j1 < t.len() && sort_by_start(s)[i] == t[j1];
            lemma_sort_by_start_members(s.drop_last(), j1);
            let j2 = choose|j2: int|
                0 <= j2 < s.drop_last().len() && sort_by_start(s.drop_last())[j1] == s.drop_last()[j2];
            assert(sort_by_start(s)[i] == s[j2]);
        }
    }
}

proof fn lemma_walk_covered(s: Seq<(usize, usize)>, f: usize, i: int)
    requires
        f <= i < walk_frontier(s, f),
    ensures
        exists|j: int| 0 <= j < s.len() && (#[trigger] s[j]).0 <= i < s[j].1,
    decreases s.len(),
{
    let d = s.drop_first();
    if s[0].0 == f {
        if i < s[0].1 {
            assert(s[0].0 <= i < s[0].1);
        } else {
            lemma_walk_covered(d, s[0].1, i);
            let j = choose|j: int| 0 <= j < d.len() && (#[trigger] d[j]).0 <= i < d[j].1;
            assert(s[j + 1].0 <= i < s[j + 1].1);
        }
    } else if s[0].0 > f {
        // the walk stopped at f, so no index here satisfies the bound
    } else {
        lemma_walk_covered(d, f, i);
        let j = choose|j: int| 0 <= j < d.len() && (#[trigger] d[j]).0 <= i < d[j].1;
        assert(s[j + 1].0 <= i < s[j + 1].1);
    }
}

/// Law: resumption never skips an unconfirmed record — every index below
/// the safe resume point lies inside some completed range, however the
/// ranges overlap and whatever order they were recorded in.
pub proof fn lemma_resume_point_is_safe(ranges: Seq<(usize, usize)>, i: int)
    requires
        0 <= i < safe_resume_point(ranges),
    ensures
        exists|j: int| 0 <= j < ranges.len() && (#[trigger] ranges[j]).0 <= i < ranges[j].1,
{
    let s = sort_by_start(ranges);
    lemma_walk_covered(s, 0, i);
    let j1 = choose|j1: int| 0 <= j1 < s.len() && (#[trigger] s[j1]).0 <= i < s[j1].1;
    lemma_sort_by_start_members(ranges, j1);
    let j2 = choose|j2: int| 0 <= j2 < ranges.len() && s[j1] == ranges[j2];
    assert(ranges[j2].0 <= i < ranges[j2].1);
}

/// Relies on std::time::SystemTime::now and Duration::as_secs: seconds since
/// the Unix epoch, or 0 if the clock reads earlier than the epoch. The value
/// depends on the wall clock, so nothing is promised of it.
#[verifier::external_body]
fn unix_time_now() -> u64 {
    std::time::SystemTime::now()
        .duration_since(std::time::UNIX_EPOCH)
        .map(|d| d.as_secs())
        .unwrap_or(0)
}

impl MigrationCheckpoint {
    /// A fresh checkpoint with zero progress, timestamped now.
    pub fn new(csv_file_path: String, total_records: usize) -> (cp: Self)
        ensures
            cp.csv_file_path@ == csv_file_path@,
            cp.total_records == total_records,
            cp.processed_records == 0,
            cp.successful_batches == 0,
            cp.failed_batches == 0,
            cp.completed_batch_ranges@ =~= Seq::<(usize, usize)>::empty(),
    {
        Self {
            csv_file_path,
            total_records,
            processed_records: 0,
            successful_batches: 0,
            failed_batches: 0,
            completed_batch_ranges: Vec::new(),
            start_time: unix_time_now(),
        }
    }

    /// The index a later run may safely resume from: sort the completed
    /// ranges by start index and walk them, merging every range that starts
    /// exactly at the running frontier; the first gap stops the walk. A range
    /// that only partly extends past an overlap is deliberately not merged —
    /// only ranges starting exactly at the frontier advance it.
    pub fn get_safe_resume_point(&self) -> (r: usize)
        ensures
            r == safe_resume_point(self.completed_batch_ranges@),
    {
        let ranges = &self.completed_batch_ranges;
        let n = ranges.len();

        // stable insertion sort by start index, mirroring `sort_by_start`
        let mut sorted: Vec<(usize, usize)> = Vec::new();
        let mut i: usize = 0;
        while i < n
            invariant
                n == ranges@.len(),
                0 <= i <= n,
                sorted@ == sort_by_start(ranges@.subrange(0, i as int)),
                sorted_by_start(sorted@),
                sorted@.len() == i,
            decreases n - i,
        {
            let x = ranges[i];
            let mut j: usize = 0;
            while j < sorted.len() && sorted[j].0 <= x.0
                invariant
                    0 <= j <= sorted@.len(),
                    forall|m: int| 0 <= m < j ==> (#[trigger] sorted@[m]).0 <= x.0,
                decreases sorted@.len() - j,
            {
                j = j + 1;
            }
            proof {
                lemma_insert_by_start_at(x, sorted@, j as int);
                lemma_insert_by_start_sorted(x, sorted@);
                let pre = ranges@.subrange(0, i as int);
                let cur = ranges@.subrange(0, i + 1 as int);
                assert(cur.drop_last() =~= pre);
                assert(cur.last() == x);
                assert(sort_by_start(cur) == insert_by_start(x, sort_by_start(pre)));
            }
            sorted.insert(j, x);
            proof {
                assert(sorted@ =~= sort_by_start(ranges@.subrange(0, i + 1 as int)));
            }
            i = i + 1;
        }
        proof {
            assert(ranges@.subrange(0, n as int) =~= ranges@);
            assert(sorted@.subrange(0, n as int) =~= sorted@);
        }

        // frontier walk over the sorted ranges, mirroring `walk_frontier`
        let mut frontier: usize = 0;
        let mut k: usize = 0;
        let mut blocked = false;
        while k < n && !blocked
            invariant
                n == sorted@.len(),
                0 <= k <= n,
                walk_frontier(sorted@, 0) == if blocked {
                    frontier
                } else {
                    walk_frontier(sorted@.subrange(k as int, n as int), frontier)
                },
            decreases n - k, (if blocked { 0int } else { 1int }),
        {
            let (start, end) = sorted[k];
            proof {
                let suffix = sorted@.subrange(k as int, n as int);
                assert(suffix[0] == sorted@[k as int]);
                assert(suffix.drop_first() =~= sorted@.subrange(k + 1 as int, n as int));
            }
            if start == frontier {
                frontier = end;
                k = k + 1;
            } else if start > frontier {
                blocked = true;
            } else {
                k = k + 1;
            }
        }
        proof {
            if !blocked {
                assert(sorted@.subrange(n as int, n as int) =~= Seq::<(usize, usize)>::empty());
            }
        }
        frontier
    }

    /// Records one committed batch: appends its range and accounts its size.
    /// A re-added overlapping range double-counts `processed_records`; that is
    /// the accounting rule, not an accident.
    pub fn add_completed_batch(&mut self, start_index: usize, batch_size: usize)
        requires
            start_index + batch_size <= usize::MAX,
            old(self).processed_records + batch_size <= usize::MAX,
            old(self).successful_batches < usize::MAX,
        ensures
            final(self).completed_batch_ranges@ == old(self).completed_batch_ranges@.push(
                (start_index, (start_index + batch_size) as usize),
            ),
            final(self).processed_records == old(self).processed_records + batch_size,
            final(self).successful_batches == old(self).successful_batches + 1,
            final(self).failed_batches == old(self).failed_batches,
            final(self).total_records == old(self).total_records,
            final(self).csv_file_path@ == old(self).csv_file_path@,
            final(self).start_time == old(self).start_time,
    {
        let end_index = start_index + batch_size;
        self.completed_batch_ranges.push((start_index, end_index));
        self.processed_records = self.processed_records + batch_size;
        self.successful_batches = self.successful_batches + 1;
    }

    /// Records one failed batch: the counter moves, no range is added, so the
    /// safe resume point can never advance past the failed batch's start.
    pub fn add_failed_batch(&mut self)
        requires
            old(self).failed_batches < usize::MAX,
        ensures
            final(self).failed_batches == old(self).failed_batches + 1,
            final(self).completed_batch_ranges@ == old(self).completed_batch_ranges@,
            final(self).processed_records == old(self).processed_records,
            final(self).successful_batches == old(self).successful_batches,
            final(self).total_records == old(self).total_records,
            final(self).csv_file_path@ == old(self).csv_file_path@,
            final(self).start_time == old(self).start_time,
    {
        self.failed_batches = self.failed_batches + 1;
    }

    /// Whether every record of the dataset has been accounted as processed.
    pub fn is_completed(&self) -> (r: bool)
        ensures
            r == (self.processed_records >= self.total_records),
    {
        self.processed_records >= self.total_records
    }

    /// Path of the durable checkpoint artifact for a dataset file.
    pub fn checkpoint_file_path(csv_file: &str) -> (r: String)
        ensures
            r@ == csv_file@ + ".checkpoint"@,
    {
        let mut r = csv_file.to_owned();
        r.append(".checkpoint");
        r
    }

    /// Whether a checkpoint read back from durable storage belongs to the
    /// given dataset file; a loaded checkpoint that does not is discarded and
    /// the migration starts fresh.
    pub fn matches_dataset(&self, csv_file: &str) -> (r: bool)
        ensures
            r == (self.csv_file_path@ == csv_file@),
    {
        self.csv_file_path == csv_file.to_owned()
    }
}

} // verus!
