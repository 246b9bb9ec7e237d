//! Entity records and the raw values they are built from.
use vstd::prelude::*;

verus! {

/// A 3-D vector held as the IEEE-754 bit patterns of its three `f32`
/// components, exactly as they sit in the target's memory.
#[derive(Clone, Copy, Debug, PartialEq, Eq, Structural)]
pub struct RawVec3 {
    pub x: u32,
    pub y: u32,
    pub z: u32,
}

/// The zero vector (all three components `+0.0`).
pub open spec fn zero_vec() -> RawVec3 {
    RawVec3 { x: 0, y: 0, z: 0 }
}

impl RawVec3 {
    pub fn zero() -> (r: RawVec3)
        ensures
            r == zero_vec(),
    {
        RawVec3 { x: 0, y: 0, z: 0 }
    }
}

/// One recovered entity.
#[derive(Clone, Debug)]
pub struct Entity {
    pub base: u64,
    pub team: u32,
    pub health: u32,
    pub shield: u32,
    pub name_index: i32,
    pub origin: RawVec3,
    pub name: String,
    pub class_name: String,
}

/// An entity with its two strings seen as character sequences.
pub struct EntityView {
    pub base: u64,
    pub team: u32,
    pub health: u32,
    pub shield: u32,
    pub name_index: i32,
    pub origin: RawVec3,
    pub name: Seq<char>,
    pub class_name: Seq<char>,
}

impl View for Entity {
    type V = EntityView;

    open spec fn view(&self) -> EntityView {
        EntityView {
            base: self.base,
            team: self.team,
            health: self.health,
            shield: self.shield,
            name_index: self.name_index,
            origin: self.origin,
            name: self.name@,
            class_name: self.class_name@,
        }
    }
}

/// The views of a list of entities.
pub open spec fn entity_views(s: Seq<Entity>) -> Seq<EntityView> {
    Seq::new(s.len(), |i: int| s[i]@)
}

impl Entity {
    /// A field-for-field copy.
    pub fn duplicate(&self) -> (r: Entity)
        ensures
            r == *self,
    {
        Entity {
            base: self.base,
            team: self.team,
            health: self.health,
            shield: self.shield,
            name_index: self.name_index,
            origin: self.origin,
            name: self.name.clone(),
            class_name: self.class_name.clone(),
        }
    }
}

/// Copies a list of entities.
pub fn duplicate_all(v: &Vec<Entity>) -> (r: Vec<Entity>)
    ensures
        r@ == v@,
{
    let mut r: Vec<Entity> = Vec::new();
    let mut i: usize = 0;
    while i < v.len()
        invariant
            i <= v@.len(),
            r@ == v@.take(i as int),
        decreases v@.len() - i,
    {
        r.push(v[i].duplicate());
        proof {
            assert(v@.take(i + 1) == v@.take(i as int).push(v@[i as int]));
        }
        i = i + 1;
    }
    proof {
        assert(v@.take(v@.len() as int) == v@);
    }
    r
}

/// What `String::from_utf8_lossy` makes of a byte sequence.
pub uninterp spec fn utf8_lossy(b: Seq<u8>) -> Seq<char>;

/// Whether every byte is ASCII.
pub open spec fn all_ascii(b: Seq<u8>) -> bool {
    forall|i: int| 0 <= i < b.len() ==> b[i] < 0x80
}

/// The characters of ASCII bytes, one for one.
pub open spec fn ascii_chars(b: Seq<u8>) -> Seq<char> {
    Seq::new(b.len(), |i: int| b[i] as char)
}

/// Relies on `String::from_utf8_lossy`: the text depends on the bytes alone,
/// and bytes that are valid UTF-8 (ASCII bytes in particular) come through
/// unchanged.
#[verifier::external_body]
fn decode_utf8_lossy(b: &[u8]) -> (r: String)
    ensures
        r@ == utf8_lossy(b@),
        all_ascii(b@) ==> r@ == ascii_chars(b@),
{
    String::from_utf8_lossy(b).into_owned()
}

/// Index of the first zero byte at or after `i`, or the length when there is
/// none.
pub open spec fn nul_end(b: Seq<u8>, i: int) -> int
    decreases b.len() - i,
{
    if i < 0 || i >= b.len() {
        b.len() as int
    } else if b[i] == 0 {
        i
    } else {
        nul_end(b, i + 1)
    }
}

/// The text of a zero-terminated buffer: the bytes before the first zero
/// (all of them when there is none), decoded as lossy UTF-8. No bytes give
/// the empty string.
pub open spec fn name_text(b: Seq<u8>) -> Seq<char> {
    if nul_end(b, 0) == 0 {
        Seq::empty()
    } else {
        utf8_lossy(b.take(nul_end(b, 0)))
    }
}

/// Decodes a fixed-size name buffer as a zero-terminated, lossy UTF-8 string.
pub fn decode_name(buf: &[u8; 32]) -> (r: String)
    ensures
        r@ == name_text(buf@),
        all_ascii(buf@.take(nul_end(buf@, 0))) ==> r@ == ascii_chars(buf@.take(nul_end(buf@, 0))),
{
    let mut bytes: Vec<u8> = Vec::new();
    let mut i: usize = 0;
    while i < 32
        invariant
            i <= 32,
            buf@.len() == 32,
            nul_end(buf@, 0) == nul_end(buf@, i as int),
            bytes@ == buf@.take(i as int),
        ensures
            i == nul_end(buf@, 0),
            bytes@ == buf@.take(nul_end(buf@, 0)),
        decreases 32 - i,
    {
        if buf[i] == 0 {
            assert(nul_end(buf@, i as int) == i);
            break;
        }
        bytes.push(buf[i]);
        proof {
            assert(buf@.take(i + 1) == buf@.take(i as int).push(buf@[i as int]));
        }
        i = i + 1;
        proof {
            if i == 32 {
                assert(nul_end(buf@, 32) == 32);
            }
        }
    }
    if bytes.len() == 0 {
        assert(ascii_chars(bytes@) =~= Seq::<char>::empty());
        String::new()
    } else {
        decode_utf8_lossy(bytes.as_slice())
    }
}

} // verus!
