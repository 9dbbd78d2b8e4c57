//! Packed ability ids: a `u16` whose high bits hold the level and whose low
//! bits hold the within-level sub-id (`id = (level << ID_BITS) | sub_id`).

use vstd::prelude::*;

verus! {

/// Bits reserved for the level in a packed ability id.
pub const LEVEL_BITS: u16 = 5;

/// Bits reserved for the within-level sub-id.
pub const ID_BITS: u16 = 11;

/// Hard cap on character and ability levels (five bits could hold 31).
pub const MAX_LEVEL: u8 = 30;

/// Largest representable sub-id (`2^ID_BITS - 1`).
pub const MAX_SUB_ID: u16 = 2047;

const SUB_ID_MASK: u16 = 2047;

const LEVEL_MASK: u16 = 0xF800;

/// The level that packing stores: the requested one, capped at `MAX_LEVEL`.
pub open spec fn clamped_level(level: u8) -> int {
    if level <= MAX_LEVEL { level as int } else { MAX_LEVEL as int }
}

/// The id that `pack_ability_id(level, sub_id)` produces, as a number.
pub open spec fn packed_id(level: u8, sub_id: u16) -> int {
    clamped_level(level) * 2048 + (sub_id as int) % 2048
}

/// The level stored in a packed id.
pub open spec fn level_of(id: u16) -> int {
    (id as int) / 2048
}

/// The sub-id stored in a packed id.
pub open spec fn sub_id_of(id: u16) -> int {
    (id as int) % 2048
}

/// Pack a `(level, sub_id)` pair into an ability id. The level is clamped to
/// `MAX_LEVEL` and the sub-id is masked to its eleven bits, so the result
/// always unpacks to a level within the cap.
pub fn pack_ability_id(level: u8, sub_id: u16) -> (id: u16)
    ensures
        id as int == packed_id(level, sub_id),
{
    let lvl: u8 = if level < MAX_LEVEL { level } else { MAX_LEVEL };
    let lvl16: u16 = lvl as u16;
    assert(lvl16 <= 30);
    let shifted: u16 = lvl16 << 11u16;
    let low: u16 = sub_id & SUB_ID_MASK;
    let id: u16 = shifted | low;
    assert(id == lvl16 * 2048 + sub_id % 2048) by (bit_vector)
        requires
            lvl16 <= 30,
            shifted == lvl16 << 11u16,
            low == sub_id & 2047u16,
            id == shifted | low,
    ;
    id
}

/// Split a packed ability id back into `(level, sub_id)`.
pub fn unpack_ability_id(id: u16) -> (parts: (u8, u16))
    ensures
        parts.0 as int == level_of(id),
        parts.1 as int == sub_id_of(id),
        parts.0 < 32,
        parts.1 <= MAX_SUB_ID,
{
    let high: u16 = (id & LEVEL_MASK) >> 11u16;
    let low: u16 = id & SUB_ID_MASK;
    assert(high == id / 2048 && high < 32 && low == id % 2048) by (bit_vector)
        requires
            high == (id & 0xF800u16) >> 11u16,
            low == id & 2047u16,
    ;
    (high as u8, low)
}

/// Law: a level within the cap and a sub-id within its bits survive a
/// pack/unpack round trip unchanged.
pub proof fn lemma_pack_unpack_round_trip(level: u8, sub_id: u16)
    requires
        level <= MAX_LEVEL,
        sub_id <= MAX_SUB_ID,
    ensures
        level_of(packed_id(level, sub_id) as u16) == level as int,
        sub_id_of(packed_id(level, sub_id) as u16) == sub_id as int,
{
    let p = packed_id(level, sub_id);
    assert(p == level as int * 2048 + sub_id as int);
    assert(0 <= p < 65536);
    assert((p as u16) as int == p);
    assert(p / 2048 == level as int) by (nonlinear_arith)
        requires
            p == level as int * 2048 + sub_id as int,
            0 <= sub_id < 2048,
    ;
    assert(p % 2048 == sub_id as int) by (nonlinear_arith)
        requires
            p == level as int * 2048 + sub_id as int,
            0 <= sub_id < 2048,
            0 <= level,
    ;
}

/// Law: whatever level is requested, the packed id holds the requested level
/// capped at `MAX_LEVEL`, and a too-large sub-id never reaches the level
/// bits: only its low eleven bits are kept.
pub proof fn lemma_pack_clamps_and_masks(level: u8, sub_id: u16)
    ensures
        level_of(packed_id(level, sub_id) as u16) == clamped_level(level),
        sub_id_of(packed_id(level, sub_id) as u16) == (sub_id as int) % 2048,
        level_of(packed_id(level, sub_id) as u16) <= MAX_LEVEL,
{
    let p = packed_id(level, sub_id);
    let l = clamped_level(level);
    let s = (sub_id as int) % 2048;
    assert(0 <= s < 2048);
    assert(0 <= l <= 30);
    assert(p == l * 2048 + s);
    assert(0 <= p < 65536);
    assert((p as u16) as int == p);
    assert(p / 2048 == l) by (nonlinear_arith)
        requires
            p == l * 2048 + s,
            0 <= s < 2048,
    ;
    assert(p % 2048 == s) by (nonlinear_arith)
        requires
            p == l * 2048 + s,
            0 <= s < 2048,
            0 <= l,
    ;
}

} // verus!
