//! Bounded narrative statistics.
//!
//! Every character stat (loyalty, suspicion, thoughtcrime, health,
//! rebellion score) is an 8-bit counter confined to [0, 100]. All
//! adjustments go through the saturating operations here, which clamp at
//! the bounds instead of wrapping or panicking.

use vstd::prelude::*;

verus! {

/// Highest value any bounded stat may take.
pub const STAT_MAX: u8 = 100;

/// True of a value that a bounded stat may hold.
pub open spec fn stat_in_range(v: u8) -> bool {
    v <= STAT_MAX
}

/// What a saturating increase of a bounded stat yields.
pub open spec fn spec_stat_add(v: u8, d: u8) -> u8 {
    if v + d > STAT_MAX {
        STAT_MAX
    } else {
        (v + d) as u8
    }
}

/// What a saturating decrease of a bounded stat yields.
pub open spec fn spec_stat_sub(v: u8, d: u8) -> u8 {
    if v < d {
        0
    } else {
        (v - d) as u8
    }
}

/// Increase a bounded stat, clamping at the upper bound.
pub fn stat_add(v: u8, d: u8) -> (r: u8)
    ensures
        r == spec_stat_add(v, d),
        stat_in_range(v) ==> stat_in_range(r),
{
    let sum: u16 = v as u16 + d as u16;
    if sum > STAT_MAX as u16 {
        STAT_MAX
    } else {
        sum as u8
    }
}

/// Decrease a bounded stat, clamping at zero.
pub fn stat_sub(v: u8, d: u8) -> (r: u8)
    ensures
        r == spec_stat_sub(v, d),
        stat_in_range(v) ==> stat_in_range(r),
{
    if v < d {
        0
    } else {
        v - d
    }
}

/// No sequence of saturating adjustments can take a stat out of range:
/// starting in range, any one step of either operation lands in range.
pub proof fn lemma_stat_ops_stay_in_range(v: u8, d: u8)
    requires
        stat_in_range(v),
    ensures
        stat_in_range(spec_stat_add(v, d)),
        stat_in_range(spec_stat_sub(v, d)),
{
}

} // verus!
