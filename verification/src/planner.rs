//! Batch planning: group an ordered, indexed record stream into fixed-size
//! batches, skipping every record that lies before the resume point.

use vstd::prelude::*;
use vstd::arithmetic::div_mod::lemma_div_is_ordered;
use vstd::arithmetic::div_mod::lemma_div_non_zero;
use vstd::arithmetic::div_mod::lemma_div_plus_one;
use vstd::arithmetic::div_mod::lemma_fundamental_div_mod;
use vstd::arithmetic::div_mod::lemma_fundamental_div_mod_converse;
use vstd::arithmetic::div_mod::lemma_mod_bound;

verus! {

/// One planned batch: the original index of its first record, and the
/// records themselves in input order. Batch identity for checkpoint purposes
/// is the pair `(start_index, items.len())`.
pub struct Batch<T> {
    pub start_index: usize,
    pub items: Vec<T>,
}

/// How many records of an `n`-record dataset a plan resuming at `resume_from`
/// retains.
pub open spec fn retained_count(n: int, resume_from: int) -> int {
    if resume_from <= n {
        n - resume_from
    } else {
        0
    }
}

/// What a plan promises: `ceil(m / batch_size)` batches over the `m`
/// retained records, batch `j` starting at original index
/// `resume_from + j * batch_size`, every batch full but possibly the last,
/// and each batch holding exactly the retained records from its start
/// index on, in input order.
pub open spec fn valid_plan<T>(
    records: Seq<(usize, T)>,
    batch_size: int,
    resume_from: int,
    batches: Seq<Batch<T>>,
) -> bool {
    let n = records.len() as int;
    let m = retained_count(n, resume_from);
    let c = batches.len() as int;
    &&& c == (m + batch_size - 1) / batch_size
    &&& forall|j: int|
        0 <= j < c ==> (#[trigger] batches[j]).start_index == resume_from + j * batch_size
    &&& forall|j: int|
        0 <= j < c ==> (#[trigger] batches[j]).items@.len() == if j < c - 1 {
            batch_size
        } else {
            m - (c - 1) * batch_size
        }
    &&& forall|j: int, l: int|
        0 <= j < c && 0 <= l < batches[j].items@.len() ==> #[trigger] batches[j].items@[l]
            == records[resume_from + j * batch_size + l].1
}

/// Groups `records` — the full dataset as `(original_index, record)` pairs,
/// indexed consecutively from 0 — into batches of at most `batch_size`
/// records, skipping every record whose index lies below `resume_from`.
/// Batches come out in ascending index order; every batch but the last holds
/// exactly `batch_size` records, and each carries the original index of its
/// first record.
pub fn plan_batches<T>(records: Vec<(usize, T)>, batch_size: usize, resume_from: usize) -> (batches:
    Vec<Batch<T>>)
    requires
        batch_size >= 1,
        forall|i: int| 0 <= i < records@.len() ==> (#[trigger] records@[i]).0 == i,
    ensures
        valid_plan(records@, batch_size as int, resume_from as int, batches@),
{
    let ghost orig = records@;
    let n = records.len();

    // reverse the input so that popping hands the records out in input order
    let mut rest = records;
    let mut rev: Vec<(usize, T)> = Vec::new();
    while rest.len() > 0
        invariant
            n == orig.len(),
            rest@ =~= orig.subrange(0, rest@.len() as int),
            rev@.len() == n - rest@.len(),
            forall|i: int| 0 <= i < rev@.len() ==> rev@[i] == orig[n - 1 - i],
        decreases rest@.len(),
    {
        let ghost before = rest@;
        let x = rest.pop().unwrap();
        proof {
            assert(rest@ =~= orig.subrange(0, rest@.len() as int));
            assert(x == orig[before.len() - 1]);
        }
        rev.push(x);
    }

    let mut batches: Vec<Batch<T>> = Vec::new();
    let mut current: Vec<T> = Vec::new();
    let mut current_start: usize = 0;
    let mut t: usize = 0;
    while rev.len() > 0
        invariant
            n == orig.len(),
            batch_size >= 1,
            forall|i: int| 0 <= i < orig.len() ==> (#[trigger] orig[i]).0 == i,
            t == n - rev@.len(),
            t <= n,
            forall|i: int| 0 <= i < rev@.len() ==> rev@[i] == orig[n - 1 - i],
            current@.len() < batch_size,
            t <= resume_from ==> batches@.len() == 0 && current@.len() == 0,
            t > resume_from ==> t == resume_from + batches@.len() * batch_size + current@.len(),
            current@.len() > 0 ==> current_start == resume_from + batches@.len() * batch_size,
            forall|j: int|
                0 <= j < batches@.len() ==> (#[trigger] batches@[j]).start_index == resume_from + j
                    * batch_size,
            forall|j: int|
                0 <= j < batches@.len() ==> (#[trigger] batches@[j]).items@.len() == batch_size,
            forall|j: int, l: int|
                0 <= j < batches@.len() && 0 <= l < batch_size
                    ==> #[trigger] batches@[j].items@[l] == orig[resume_from + j * batch_size
                    + l].1,
            forall|l: int|
                0 <= l < current@.len() ==> #[trigger] current@[l] == orig[resume_from
                    + batches@.len() * batch_size + l].1,
        decreases rev@.len(),
    {
        let ghost rev_before = rev@;
        let (idx, item) = rev.pop().unwrap();
        proof {
            assert((idx, item) == orig[n - 1 - (rev_before.len() - 1)]);
            assert(orig[t as int].0 == t);
            assert(idx == t);
        }
        if idx >= resume_from {
            if current.len() == 0 {
                current_start = idx;
            }
            let ghost k = batches@.len() as int;
            proof {
                if t == resume_from {
                    assert(k * batch_size == 0) by (nonlinear_arith)
                        requires
                            k == 0,
                    ;
                }
            }
            current.push(item);
            if current.len() >= batch_size {
                let full = current;
                current = Vec::new();
                batches.push(Batch { start_index: current_start, items: full });
                proof {
                    assert((k + 1) * batch_size == k * batch_size + batch_size)
                        by (nonlinear_arith);
                }
            }
        }
        t = t + 1;
    }

    // the final, possibly short batch
    let ghost k0 = batches@.len() as int;
    let ghost s0 = current@.len() as int;
    if current.len() > 0 {
        batches.push(Batch { start_index: current_start, items: current });
    }

    proof {
        let b = batch_size as int;
        let r = resume_from as int;
        let m = retained_count(n as int, r);
        let c = batches@.len() as int;
        if n as int <= r {
            assert(m == 0 && c == 0 && s0 == 0);
            lemma_fundamental_div_mod_converse(b - 1, b, 0, b - 1);
        } else {
            assert(n as int == r + k0 * b + s0);
            assert(m == k0 * b + s0);
            if s0 == 0 {
                assert(c == k0);
                assert(m > 0);
                assert(k0 >= 1) by (nonlinear_arith)
                    requires
                        k0 * b > 0,
                        b >= 1,
                        k0 >= 0,
                ;
                lemma_fundamental_div_mod_converse(m + b - 1, b, k0, b - 1);
                assert(k0 * b - (k0 - 1) * b == b) by (nonlinear_arith);
            } else {
                assert(c == k0 + 1);
                assert((k0 + 1) * b == k0 * b + b) by (nonlinear_arith);
                lemma_fundamental_div_mod_converse(m + b - 1, b, k0 + 1, s0 - 1);
            }
        }
    }
    batches
}

/// The total number of records a sequence of batches holds.
pub open spec fn total_planned<T>(batches: Seq<Batch<T>>) -> int
    decreases batches.len(),
{
    if batches.len() == 0 {
        0
    } else {
        total_planned(batches.drop_last()) + batches.last().items@.len()
    }
}

proof fn lemma_total_planned_full<T>(batches: Seq<Batch<T>>, batch_size: int)
    requires
        forall|j: int| 0 <= j < batches.len() ==> (#[trigger] batches[j]).items@.len() == batch_size,
    ensures
        total_planned(batches) == batches.len() * batch_size,
    decreases batches.len(),
{
    if batches.len() > 0 {
        lemma_total_planned_full(batches.drop_last(), batch_size);
        assert(batches.len() * batch_size == (batches.len() - 1) * batch_size + batch_size)
            by (nonlinear_arith);
    }
}

/// Law: the batch sizes of a plan sum to exactly the number of retained
/// records — no record is dropped and none is duplicated across batches. With
/// `resume_from == 0` the sum is the full dataset size.
pub proof fn lemma_plan_sizes_sum<T>(
    records: Seq<(usize, T)>,
    batch_size: int,
    resume_from: int,
    batches: Seq<Batch<T>>,
)
    requires
        batch_size >= 1,
        valid_plan(records, batch_size, resume_from, batches),
    ensures
        total_planned(batches) == retained_count(records.len() as int, resume_from),
{
    let m = retained_count(records.len() as int, resume_from);
    let c = batches.len() as int;
    if c == 0 {
        if m >= 1 {
            lemma_div_non_zero(m + batch_size - 1, batch_size);
        }
    } else {
        lemma_total_planned_full(batches.drop_last(), batch_size);
        assert(total_planned(batches) == (c - 1) * batch_size + (m - (c - 1) * batch_size));
    }
}

/// Law: a plan resuming at `resume_from` skips exactly the records before
/// that index and no others: the plan is non-empty, its first batch starts at
/// `resume_from`, and the record at any original index `i >= resume_from`
/// stands in batch `(i - resume_from) / batch_size` at offset
/// `(i - resume_from) % batch_size`.
pub proof fn lemma_plan_resumes_at<T>(
    records: Seq<(usize, T)>,
    batch_size: int,
    resume_from: int,
    batches: Seq<Batch<T>>,
    i: int,
)
    requires
        batch_size >= 1,
        valid_plan(records, batch_size, resume_from, batches),
        0 <= resume_from <= i < records.len(),
    ensures
        batches.len() > 0,
        batches[0].start_index == resume_from,
        ({
            let j = (i - resume_from) / batch_size;
            let l = (i - resume_from) % batch_size;
            &&& 0 <= j < batches.len()
            &&& 0 <= l < batches[j].items@.len()
            &&& batches[j].items@[l] == records[i].1
        }),
{
    let n = records.len() as int;
    let b = batch_size;
    let r = resume_from;
    let m = retained_count(n, r);
    let c = batches.len() as int;
    let d = i - r;
    let j = d / b;
    let l = d % b;
    assert(0 < m <= n - r);
    lemma_div_non_zero(m + b - 1, b);
    assert(c > 0);
    assert(batches[0].start_index == r + 0 * b);
    lemma_fundamental_div_mod(d, b);
    lemma_mod_bound(d, b);
    assert(d == b * j + l);
    // j stays within the plan: d <= m - 1, so j <= (m - 1) / b == c - 1
    lemma_div_is_ordered(d, m - 1, b);
    lemma_div_plus_one(m - 1, b);
    assert(c == (b + (m - 1)) / b);
    assert(j <= c - 1);
    assert(j >= 0) by {
        lemma_fundamental_div_mod_converse(d, b, j, l);
    }
    // l stays within batch j
    if j == c - 1 {
        assert(batches[j].items@.len() == m - (c - 1) * b);
        assert(b * j == j * b) by (nonlinear_arith);
        assert(l < m - (c - 1) * b);
    }
    assert(b * j == j * b) by (nonlinear_arith);
    assert(r + j * b + l == i);
    assert(batches[j].items@[l] == records[r + j * b + l].1);
}

} // verus!
