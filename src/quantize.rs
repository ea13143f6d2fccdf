//! Turning a color channel, given in thousandths of full scale, into a byte.

use vstd::prelude::*;

verus! {

/// The byte for a channel given in thousandths of full scale: the value is
/// clamped to `[0, 1000]` and scaled to `[0, 255]`, rounding halves up.
pub open spec fn channel_byte(thousandths: int) -> int {
    let k = if thousandths < 0 {
        0
    } else if thousandths > 1000 {
        1000
    } else {
        thousandths
    };
    (255 * k + 500) / 1000
}

/// Clamps a channel given in thousandths to the display range and scales it to
/// the nearest byte.
pub fn quantize_channel(thousandths: i64) -> (r: u8)
    ensures
        r as int == channel_byte(thousandths as int),
{
    let k: i64 = if thousandths < 0 {
        0
    } else if thousandths > 1000 {
        1000
    } else {
        thousandths
    };
    ((255 * k + 500) / 1000) as u8
}

/// The nearest thousandth of full scale to the channel `b / 255`. No byte lies
/// halfway between two thousandths, so the rounding has no ties.
pub open spec fn nearest_thousandths(b: int) -> int {
    (2000 * b + 255) / 510
}

/// On the display range the byte is the nearest one: it lies within half a
/// step of the channel it was made from.
pub proof fn lemma_quantize_nearest(thousandths: int)
    requires
        0 <= thousandths <= 1000,
    ensures
        0 <= channel_byte(thousandths) <= 255,
        -500 < 1000 * channel_byte(thousandths) - 255 * thousandths <= 500,
{
}

/// A byte taken to the nearest thousandth of its share of 255 and quantized
/// again comes back unchanged.
pub proof fn lemma_byte_survives_thousandths(b: int)
    requires
        0 <= b <= 255,
    ensures
        0 <= nearest_thousandths(b) <= 1000,
        channel_byte(nearest_thousandths(b)) == b,
{
}

} // verus!
