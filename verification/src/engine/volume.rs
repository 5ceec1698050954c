//! Channel volumes and what changes them. A volume runs from 0 to 64 and
//! has 16 fractional bits.

use super::pitch::ONE;
use vstd::prelude::*;

verus! {

/// The highest channel volume: 64.
#[verifier::inline]
pub const VOLUME_MAX: u32 = 0x40_0000;

/// A volume held between 0 and 64.
pub open spec fn clamped_volume(v: int) -> int {
    if v < 0 {
        0
    } else if v > VOLUME_MAX {
        VOLUME_MAX as int
    } else {
        v
    }
}

/// The volume that stands for the whole number `v`, held at 64.
pub open spec fn whole_volume(v: u8) -> int {
    clamped_volume(v as int * ONE as int)
}

/// Computes `whole_volume`.
pub(crate) fn volume_of(v: u8) -> (r: u32)
    ensures
        r == whole_volume(v),
        r <= VOLUME_MAX,
{
    if v >= 64 {
        VOLUME_MAX
    } else {
        (v as u32) * (ONE as u32)
    }
}

/// What one tick of a volume slide adds to the volume. With `x` the high
/// and `y` the low digit of the argument: `0y` takes `y`, `x0` adds `x`,
/// `Fy` takes an eighth of `y`, `xF` adds an eighth of `x`; anything else
/// adds nothing.
pub open spec fn volume_slide_delta(value: u8) -> int {
    let x = value as int / 16;
    let y = value as int % 16;
    if x == 0 && y != 0 {
        -y * ONE
    } else if x != 0 && y == 0 {
        x * ONE
    } else if x == 15 && y != 0 {
        -y * ONE / 8
    } else if x != 0 && y == 15 {
        x * ONE / 8
    } else {
        0
    }
}

/// The volume after a retrigger with volume change `x`: 1 to 5 take 1, 2, 4,
/// 8, 16; 6 and 7 scale by two thirds and by a half; 9 to 13 add 1, 2, 4, 8,
/// 16; 14 and 15 scale by three halves and by two; 0 and 8 change nothing.
/// The result is held between 0 and 64.
pub open spec fn retriggered_volume(volume: int, x: int) -> int {
    clamped_volume(
        if x == 1 {
            volume - ONE
        } else if x == 2 {
            volume - 2 * ONE
        } else if x == 3 {
            volume - 4 * ONE
        } else if x == 4 {
            volume - 8 * ONE
        } else if x == 5 {
            volume - 16 * ONE
        } else if x == 6 {
            volume * 2 / 3
        } else if x == 7 {
            volume / 2
        } else if x == 9 {
            volume + ONE
        } else if x == 10 {
            volume + 2 * ONE
        } else if x == 11 {
            volume + 4 * ONE
        } else if x == 12 {
            volume + 8 * ONE
        } else if x == 13 {
            volume + 16 * ONE
        } else if x == 14 {
            volume * 3 / 2
        } else if x == 15 {
            volume * 2
        } else {
            volume
        },
    )
}

/// Computes `clamped_volume`.
pub(crate) fn clamp_volume(v: i64) -> (r: u32)
    ensures
        r == clamped_volume(v as int),
        r <= VOLUME_MAX,
{
    if v < 0 {
        0
    } else if v > VOLUME_MAX as i64 {
        VOLUME_MAX
    } else {
        v as u32
    }
}

/// A frame at the volume of its channel and of its sample: scaled by both,
/// each taken out of 64, and rounded towards zero. A sample volume above 64
/// counts as 64.
pub open spec fn with_volume(frame: int, volume: int, sample_volume: int) -> int {
    let g = if sample_volume > 64 {
        64
    } else {
        sample_volume
    };
    if frame >= 0 {
        frame * volume * g / 0x1000_0000
    } else {
        -((-frame) * volume * g / 0x1000_0000)
    }
}

/// Computes `with_volume`.
pub(crate) fn apply_volume(frame: i32, volume: u32, sample_volume: u8) -> (r: i32)
    requires
        volume <= VOLUME_MAX,
    ensures
        r == with_volume(frame as int, volume as int, sample_volume as int),
{
    let g: u64 = if sample_volume > 64 {
        64
    } else {
        sample_volume as u64
    };
    let mag: u64 = if frame >= 0 {
        frame as u64
    } else {
        (-(frame as i64)) as u64
    };
    assert(mag * volume * g <= 0x8000_0000 * 0x40_0000 * 64) by (nonlinear_arith)
        requires
            mag <= 0x8000_0000,
            volume <= 0x40_0000,
            g <= 64,
    ;
    assert(mag * volume * g / 0x1000_0000 <= mag) by (nonlinear_arith)
        requires
            mag >= 0,
            0 <= volume <= 0x40_0000,
            0 <= g <= 64,
    ;
    assert(mag * volume <= 0x8000_0000 * 0x40_0000) by (nonlinear_arith)
        requires
            mag <= 0x8000_0000,
            volume <= 0x40_0000,
    ;
    let scaled = mag * (volume as u64) * g / 0x1000_0000;
    if frame >= 0 {
        scaled as i32
    } else {
        (-(scaled as i64)) as i32
    }
}

} // verus!
