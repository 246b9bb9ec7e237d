//! Discovery of entity base addresses from the root list.
use vstd::prelude::*;

verus! {

/// Distance between two consecutive pointer slots of the root list.
pub const SLOT_STRIDE: u64 = 32;

/// Address of candidate slot `index` of the root list:
/// `root + (index + 1) * stride`, modulo 2^64.
pub open spec fn entity_slot_of(root: u64, index: int) -> u64 {
    root.wrapping_add(((index + 1) as u64).wrapping_mul(SLOT_STRIDE))
}

/// The addresses of candidate slots `0..limit`, in order.
pub fn entity_slot_requests(root: u64, limit: usize) -> (r: Vec<u64>)
    ensures
        r@.len() == limit,
        forall|i: int| 0 <= i < limit ==> r@[i] == entity_slot_of(root, i),
{
    let mut r: Vec<u64> = Vec::new();
    let mut i: usize = 0;
    while i < limit
        invariant
            i <= limit,
            r@.len() == i,
            forall|j: int| 0 <= j < i ==> r@[j] == entity_slot_of(root, j),
        decreases limit - i,
    {
        let n: u64 = i as u64 + 1;
        r.push(root.wrapping_add(n.wrapping_mul(SLOT_STRIDE)));
        i = i + 1;
    }
    r
}

/// The base addresses found in the slot reads, in slot order: null slots and
/// failed reads are skipped.
pub open spec fn found_bases(reads: Seq<Option<u64>>) -> Seq<u64>
    decreases reads.len(),
{
    if reads.len() == 0 {
        Seq::empty()
    } else {
        let rest = found_bases(reads.drop_last());
        match reads.last() {
            Some(p) => if p != 0 {
                rest.push(p)
            } else {
                rest
            },
            None => rest,
        }
    }
}

/// Every base that enumeration yields is non-null.
pub proof fn lemma_found_bases_nonnull(reads: Seq<Option<u64>>)
    ensures
        forall|i: int| 0 <= i < found_bases(reads).len() ==> found_bases(reads)[i] != 0,
    decreases reads.len(),
{
    if reads.len() > 0 {
        let rest = found_bases(reads.drop_last());
        lemma_found_bases_nonnull(reads.drop_last());
        assert forall|i: int| 0 <= i < found_bases(reads).len() implies found_bases(reads)[i]
            != 0 by {
            if i < rest.len() {
                assert(found_bases(reads)[i] == rest[i]);
            }
        }
    }
}

/// Keeps the non-null pointers read from the root list, in slot order.
pub fn collect_bases(reads: &Vec<Option<u64>>) -> (r: Vec<u64>)
    ensures
        r@ == found_bases(reads@),
        forall|i: int| 0 <= i < r@.len() ==> r@[i] != 0,
{
    let mut r: Vec<u64> = Vec::new();
    let mut i: usize = 0;
    while i < reads.len()
        invariant
            i <= reads@.len(),
            r@ == found_bases(reads@.take(i as int)),
        decreases reads@.len() - i,
    {
        assert(reads@.take(i + 1).drop_last() == reads@.take(i as int));
        match reads[i] {
            Some(p) => {
                if p != 0 {
                    r.push(p);
                }
            },
            None => {},
        }
        i = i + 1;
    }
    assert(reads@.take(reads@.len() as int) == reads@);
    proof {
        lemma_found_bases_nonnull(reads@);
    }
    r
}

} // verus!
