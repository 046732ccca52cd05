//! Sectors of the colour wheel.
//!
//! The wheel is cut into six sectors of sixty degrees. A hue of `turns`
//! whole sectors, counted from zero degrees, lies in sector `turns` modulo
//! six: the wheel closes after six sectors, and before zero degrees it turns
//! backwards.
use vstd::prelude::*;

verus! {

/// The sector, from 0 to 5, reached after `turns` whole sectors.
pub open spec fn sector(turns: int) -> int {
    turns % 6
}

/// There are six sectors, and six sectors further on the wheel has come
/// round: 360 degrees lie in sector 0 again, not in a seventh sector.
pub proof fn lemma_sector_wraps(turns: int)
    ensures
        0 <= sector(turns) < 6,
        0 <= turns < 6 ==> sector(turns) == turns,
        sector(turns + 6) == sector(turns),
        sector(turns - 6) == sector(turns),
        sector(6) == 0,
        sector(-1) == 5,
{
}

/// Finds the sector reached after `turns` whole sectors.
pub fn sector_of(turns: i64) -> (s: u8)
    ensures
        s == sector(turns as int),
        s < 6,
{
    if turns >= 0 {
        (turns % 6) as u8
    } else {
        // Backwards from zero: one sector back is sector 5.
        let back: i64 = -(turns + 1);
        (5 - back % 6) as u8
    }
}

} // verus!
