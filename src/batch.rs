//! The scatter-read protocol as index bookkeeping. A pass asks for one read
//! for each wanted slot of an index-aligned array; the caller performs the
//! reads in that order and hands back one optional value per request. The
//! values are then spread back onto the array, with a placeholder in every
//! slot that was not wanted or whose read failed.
use vstd::prelude::*;

verus! {

/// How many of the first `i` slots are wanted.
pub open spec fn count_wanted(wanted: Seq<bool>, i: int) -> nat
    decreases i,
{
    if i <= 0 {
        0
    } else {
        count_wanted(wanted, i - 1) + if wanted[i - 1] {
            1nat
        } else {
            0nat
        }
    }
}

/// The request list `r` asks, in order, for `addrs[i]` of every wanted slot
/// `i`, and for nothing else.
pub open spec fn requests_match(wanted: Seq<bool>, addrs: Seq<u64>, r: Seq<u64>) -> bool {
    &&& r.len() == count_wanted(wanted, wanted.len() as int)
    &&& forall|i: int|
        0 <= i < wanted.len() && wanted[i] ==> r[count_wanted(wanted, i) as int] == addrs[i]
}

/// The `k`-th read, or `default` where it failed or was never handed back.
pub open spec fn read_or<T>(reads: Seq<Option<T>>, k: int, default: T) -> T {
    if 0 <= k < reads.len() && reads[k] is Some {
        reads[k]->0
    } else {
        default
    }
}

/// What slot `i` receives from the reads of one pass: its own read, or
/// `None` where it was not wanted, or its read failed or is missing.
pub open spec fn aligned_at<T>(wanted: Seq<bool>, reads: Seq<Option<T>>, i: int) -> Option<T> {
    let k = count_wanted(wanted, i) as int;
    if wanted[i] && 0 <= k < reads.len() {
        reads[k]
    } else {
        None
    }
}

/// The value that slot `i` receives, with `default` standing in for a
/// missing one.
pub open spec fn spread_at<T>(wanted: Seq<bool>, reads: Seq<Option<T>>, default: T, i: int) -> T {
    match aligned_at(wanted, reads, i) {
        Some(v) => v,
        None => default,
    }
}

pub proof fn lemma_count_wanted_monotone(wanted: Seq<bool>, i: int, j: int)
    requires
        0 <= i <= j <= wanted.len(),
    ensures
        count_wanted(wanted, i) <= count_wanted(wanted, j),
        i < j && wanted[i] ==> count_wanted(wanted, i) < count_wanted(wanted, j),
    decreases j - i,
{
    if i < j {
        lemma_count_wanted_monotone(wanted, i, j - 1);
    }
}

/// Partial-batch resilience: when every request of a pass came back, valid
/// or not, each slot that asked receives its own read: the value where the
/// read succeeded, `default` where it failed. Failed reads affect no other
/// slot.
pub proof fn lemma_partial_batch<T>(wanted: Seq<bool>, reads: Seq<Option<T>>, default: T, i: int)
    requires
        reads.len() == count_wanted(wanted, wanted.len() as int),
        0 <= i < wanted.len(),
        wanted[i],
    ensures
        count_wanted(wanted, i) < reads.len(),
        aligned_at(wanted, reads, i) == reads[count_wanted(wanted, i) as int],
        spread_at(wanted, reads, default, i) == match reads[count_wanted(wanted, i) as int] {
            Some(v) => v,
            None => default,
        },
{
    lemma_count_wanted_monotone(wanted, i, wanted.len() as int);
}

/// Lists `addrs[i]` for every wanted slot `i`, in slot order.
pub fn pick_requests(wanted: &Vec<bool>, addrs: &Vec<u64>) -> (r: Vec<u64>)
    requires
        wanted@.len() == addrs@.len(),
    ensures
        requests_match(wanted@, addrs@, r@),
{
    let mut r: Vec<u64> = Vec::new();
    let mut i: usize = 0;
    while i < wanted.len()
        invariant
            i <= wanted@.len(),
            wanted@.len() == addrs@.len(),
            r@.len() == count_wanted(wanted@, i as int),
            forall|j: int|
                0 <= j < i && wanted@[j] ==> count_wanted(wanted@, j) < count_wanted(
                    wanted@,
                    i as int,
                ),
            forall|j: int|
                0 <= j < i && wanted@[j] ==> r@[count_wanted(wanted@, j) as int] == addrs@[j],
        decreases wanted@.len() - i,
    {
        if wanted[i] {
            r.push(addrs[i]);
        }
        i = i + 1;
    }
    r
}

/// Hands each wanted slot its own read, in request order; every other slot
/// gets `None`.
pub fn align_reads<T: Copy>(wanted: &Vec<bool>, reads: &Vec<Option<T>>) -> (r: Vec<Option<T>>)
    ensures
        r@.len() == wanted@.len(),
        forall|i: int| 0 <= i < wanted@.len() ==> r@[i] == aligned_at(wanted@, reads@, i),
{
    let mut r: Vec<Option<T>> = Vec::new();
    let mut k: usize = 0;
    let mut i: usize = 0;
    while i < wanted.len()
        invariant
            i <= wanted@.len(),
            k == count_wanted(wanted@, i as int),
            k <= i,
            r@.len() == i,
            forall|j: int| 0 <= j < i ==> r@[j] == aligned_at(wanted@, reads@, j),
        decreases wanted@.len() - i,
    {
        if wanted[i] {
            if k < reads.len() {
                r.push(reads[k]);
            } else {
                r.push(None);
            }
            k = k + 1;
        } else {
            r.push(None);
        }
        i = i + 1;
    }
    r
}

/// Spreads the values read for one pass back onto the slots that asked for
/// them; every other slot, and every slot whose read failed, gets `default`.
pub fn spread_reads<T: Copy>(wanted: &Vec<bool>, reads: &Vec<Option<T>>, default: T) -> (r: Vec<T>)
    ensures
        r@.len() == wanted@.len(),
        forall|i: int| 0 <= i < wanted@.len() ==> r@[i] == spread_at(wanted@, reads@, default, i),
{
    let aligned = align_reads(wanted, reads);
    let mut r: Vec<T> = Vec::new();
    let mut i: usize = 0;
    while i < aligned.len()
        invariant
            i <= aligned@.len(),
            aligned@.len() == wanted@.len(),
            forall|j: int| 0 <= j < wanted@.len() ==> aligned@[j] == aligned_at(wanted@, reads@, j),
            r@.len() == i,
            forall|j: int| 0 <= j < i ==> r@[j] == spread_at(wanted@, reads@, default, j),
        decreases aligned@.len() - i,
    {
        match aligned[i] {
            Some(v) => r.push(v),
            None => r.push(default),
        }
        i = i + 1;
    }
    r
}

} // verus!
