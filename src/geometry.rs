//! Positions, bounding volumes and the view transform, as raw bit patterns.
//! Turning them into floating-point values, and adding a local offset to a
//! position, is left to the caller.
use vstd::prelude::*;
use crate::entities::{zero_vec, RawVec3};
use crate::offsets::{CameraOffsets, PositionOffsets};
use crate::resolver::or_default;

verus! {

/// Address of the position field of an entity.
pub open spec fn origin_addr_of(base: u64) -> u64 {
    base.wrapping_add(PositionOffsets::ORIGIN)
}

/// The position addresses of every base, in base order.
pub fn origin_requests(bases: &Vec<u64>) -> (r: Vec<u64>)
    ensures
        r@.len() == bases@.len(),
        forall|i: int| 0 <= i < bases@.len() ==> r@[i] == origin_addr_of(bases@[i]),
{
    let mut r: Vec<u64> = Vec::new();
    let mut i: usize = 0;
    while i < bases.len()
        invariant
            i <= bases@.len(),
            r@.len() == i,
            forall|j: int| 0 <= j < i ==> r@[j] == origin_addr_of(bases@[j]),
        decreases bases@.len() - i,
    {
        r.push(bases[i].wrapping_add(PositionOffsets::ORIGIN));
        i = i + 1;
    }
    r
}

/// Settles position reads: a failed read becomes the zero vector.
pub fn settle_origins(reads: &Vec<Option<RawVec3>>) -> (r: Vec<RawVec3>)
    ensures
        r@.len() == reads@.len(),
        forall|i: int| 0 <= i < reads@.len() ==> r@[i] == or_default(reads@[i], zero_vec()),
{
    let mut r: Vec<RawVec3> = Vec::new();
    let mut i: usize = 0;
    while i < reads.len()
        invariant
            i <= reads@.len(),
            r@.len() == i,
            forall|j: int| 0 <= j < i ==> r@[j] == or_default(reads@[j], zero_vec()),
        decreases reads@.len() - i,
    {
        match reads[i] {
            Some(v) => r.push(v),
            None => r.push(RawVec3::zero()),
        }
        i = i + 1;
    }
    r
}

/// Addresses of the position and of the two local bound corners of one
/// entity.
#[derive(Clone, Copy, Debug, PartialEq, Eq, Structural)]
pub struct BoundsAddrs {
    pub origin: u64,
    pub mins: u64,
    pub maxs: u64,
}

pub open spec fn bounds_addrs_of(base: u64) -> BoundsAddrs {
    BoundsAddrs {
        origin: base.wrapping_add(PositionOffsets::ORIGIN),
        mins: base.wrapping_add(PositionOffsets::COLLISION).wrapping_add(
            PositionOffsets::COLLISION_MINS,
        ),
        maxs: base.wrapping_add(PositionOffsets::COLLISION).wrapping_add(
            PositionOffsets::COLLISION_MAXS,
        ),
    }
}

/// The reads of the bounds pass for one entity; `None` is a failed read.
#[derive(Clone, Copy, Debug, PartialEq, Eq, Structural)]
pub struct BoundsReads {
    pub origin: Option<RawVec3>,
    pub mins: Option<RawVec3>,
    pub maxs: Option<RawVec3>,
}

/// A bounding volume before placement: the entity's position and its two
/// local corners. The world-space corners are `origin + mins` and
/// `origin + maxs`.
#[derive(Clone, Copy, Debug, PartialEq, Eq, Structural)]
pub struct RawBounds {
    pub origin: RawVec3,
    pub mins: RawVec3,
    pub maxs: RawVec3,
}

pub open spec fn bounds_of(r: BoundsReads) -> RawBounds {
    RawBounds {
        origin: or_default(r.origin, zero_vec()),
        mins: or_default(r.mins, zero_vec()),
        maxs: or_default(r.maxs, zero_vec()),
    }
}

/// The three addresses of every base, in base order.
pub fn bounds_requests(bases: &Vec<u64>) -> (r: Vec<BoundsAddrs>)
    ensures
        r@.len() == bases@.len(),
        forall|i: int| 0 <= i < bases@.len() ==> r@[i] == bounds_addrs_of(bases@[i]),
{
    let mut r: Vec<BoundsAddrs> = Vec::new();
    let mut i: usize = 0;
    while i < bases.len()
        invariant
            i <= bases@.len(),
            r@.len() == i,
            forall|j: int| 0 <= j < i ==> r@[j] == bounds_addrs_of(bases@[j]),
        decreases bases@.len() - i,
    {
        let coll = bases[i].wrapping_add(PositionOffsets::COLLISION);
        r.push(
            BoundsAddrs {
                origin: bases[i].wrapping_add(PositionOffsets::ORIGIN),
                mins: coll.wrapping_add(PositionOffsets::COLLISION_MINS),
                maxs: coll.wrapping_add(PositionOffsets::COLLISION_MAXS),
            },
        );
        i = i + 1;
    }
    r
}

/// Settles the bounds pass: each failed read becomes the zero vector.
pub fn settle_bounds(reads: &Vec<BoundsReads>) -> (r: Vec<RawBounds>)
    ensures
        r@.len() == reads@.len(),
        forall|i: int| 0 <= i < reads@.len() ==> r@[i] == bounds_of(reads@[i]),
{
    let mut r: Vec<RawBounds> = Vec::new();
    let mut i: usize = 0;
    while i < reads.len()
        invariant
            i <= reads@.len(),
            r@.len() == i,
            forall|j: int| 0 <= j < i ==> r@[j] == bounds_of(reads@[j]),
        decreases reads@.len() - i,
    {
        let rd = reads[i];
        let origin = match rd.origin {
            Some(v) => v,
            None => RawVec3::zero(),
        };
        let mins = match rd.mins {
            Some(v) => v,
            None => RawVec3::zero(),
        };
        let maxs = match rd.maxs {
            Some(v) => v,
            None => RawVec3::zero(),
        };
        r.push(RawBounds { origin, mins, maxs });
        i = i + 1;
    }
    r
}

/// Bit pattern of the `f32` value 1.0.
pub const ONE_BITS: u32 = 0x3f80_0000;

/// A 4x4 transform held as the bit patterns of its sixteen `f32` entries,
/// column by column.
#[derive(Clone, Copy, Debug)]
pub struct RawMat4 {
    pub cols: [u32; 16],
}

/// The identity transform: ones on the diagonal, zeros elsewhere.
pub open spec fn is_identity(m: RawMat4) -> bool {
    forall|i: int|
        0 <= i < 16 ==> m.cols@[i] == if i % 5 == 0 {
            ONE_BITS
        } else {
            0u32
        }
}

impl RawMat4 {
    pub fn identity() -> (r: RawMat4)
        ensures
            is_identity(r),
    {
        let m = RawMat4 {
            cols: [
                ONE_BITS,
                0,
                0,
                0,
                0,
                ONE_BITS,
                0,
                0,
                0,
                0,
                ONE_BITS,
                0,
                0,
                0,
                0,
                ONE_BITS,
            ],
        };
        assert(is_identity(m));
        m
    }
}

/// Address of the slot that holds the view renderer pointer.
pub open spec fn view_render_slot_of(module_base: u64) -> u64 {
    module_base.wrapping_add(CameraOffsets::VIEW_RENDER)
}

pub fn view_render_slot(module_base: u64) -> (r: u64)
    ensures
        r == view_render_slot_of(module_base),
{
    module_base.wrapping_add(CameraOffsets::VIEW_RENDER)
}

/// One step of a pointer chain: a pointer that was read and is non-null leads
/// to the address `offset` past it; a failed read or a null pointer ends the
/// chain.
pub open spec fn follow_of(read: Option<u64>, offset: u64) -> Option<u64> {
    match read {
        Some(p) => if p != 0 {
            Some(p.wrapping_add(offset))
        } else {
            None
        },
        None => None,
    }
}

pub fn follow(read: Option<u64>, offset: u64) -> (r: Option<u64>)
    ensures
        r == follow_of(read, offset),
{
    match read {
        Some(p) => if p != 0 {
            Some(p.wrapping_add(offset))
        } else {
            None
        },
        None => None,
    }
}

/// The view transform read at the end of the chain, or the identity when any
/// step of the chain failed.
pub fn settle_view(read: Option<[u32; 16]>) -> (r: RawMat4)
    ensures
        match read {
            Some(m) => r.cols == m,
            None => is_identity(r),
        },
{
    match read {
        Some(m) => RawMat4 { cols: m },
        None => RawMat4::identity(),
    }
}

} // verus!
