//! The output mapping for one color channel: the accumulated linear color
//! divided by the sample count, clamped to [0, 0.999], scaled by 256 and
//! truncated to an integer in 0..=255. The driver must reproduce this
//! mapping exactly for bit-compatible image output, so it lives here with
//! an exact contract rather than in the driver.

use vstd::prelude::*;
use crate::fixed::{SCALE, tdiv, clamp, div_trunc};

verus! {

/// Largest channel value that survives the clamp: 0.999 in fixed point.
pub const CHANNEL_CLAMP: i64 = 999_000;

/// The byte a channel maps to: average, clamp, scale by 256, truncate.
pub open spec fn channel_byte_spec(acc: int, samples: int) -> int {
    let avg = tdiv(acc, samples);
    let clamped = clamp(avg, 0, CHANNEL_CLAMP as int);
    tdiv(clamped * 256, SCALE as int)
}

/// Map one accumulated channel to the 0..=255 output scale.
pub fn channel_byte(acc: i64, samples: i32) -> (b: u8)
    requires
        samples >= 1,
    ensures
        b as int == channel_byte_spec(acc as int, samples as int),
{
    let avg: i128 = div_trunc(acc as i128, samples as i128);
    let clamped: i128 = if avg < 0 {
        0
    } else if avg > CHANNEL_CLAMP as i128 {
        CHANNEL_CLAMP as i128
    } else {
        avg
    };
    let scaled: i128 = div_trunc(clamped * 256, 1_000_000i128);
    proof {
        vstd::arithmetic::div_mod::lemma_div_pos_is_pos(clamped as int * 256, SCALE as int);
        crate::fixed::lemma_tdiv_ordered(clamped as int * 256, (CHANNEL_CLAMP as int) * 256, SCALE as int);
        assert(tdiv((CHANNEL_CLAMP as int) * 256, SCALE as int) == 255);
    }
    scaled as u8
}

/// Every channel byte lies in 0..=255 (the clamp guarantees it even for
/// out-of-range accumulated input).
pub proof fn lemma_channel_byte_in_range(acc: int, samples: int)
    requires
        samples >= 1,
    ensures
        0 <= channel_byte_spec(acc, samples) <= 255,
{
    let avg = tdiv(acc, samples);
    let clamped = clamp(avg, 0, CHANNEL_CLAMP as int);
    vstd::arithmetic::div_mod::lemma_div_pos_is_pos(clamped * 256, SCALE as int);
    crate::fixed::lemma_tdiv_ordered(clamped * 256, (CHANNEL_CLAMP as int) * 256, SCALE as int);
    assert(tdiv((CHANNEL_CLAMP as int) * 256, SCALE as int) == 255);
}

} // verus!
