//! Frequencies and the slides that change them. A frequency is a number of
//! Hz with 16 fractional bits.

use super::lut::{exp2_768, lemma_pow2_768_nonnegative, pow2_768, FACTOR_ONE};
use vstd::prelude::*;

verus! {

/// One, in the 16-bit fixed-point scale of frequencies, positions and
/// volumes.
#[verifier::inline]
pub const ONE: u64 = 0x1_0000;

/// The highest frequency a channel takes: 2^32 Hz.
#[verifier::inline]
pub const FREQ_LIMIT: u64 = 0x1_0000_0000_0000;

/// The frequency of a channel that has not played a note yet: 8363 Hz.
#[verifier::inline]
pub const FREQ_DEFAULT: u64 = 8363 * 0x1_0000;

/// The clock of the Amiga's sound chip, by which periods are counted.
#[verifier::inline]
pub const AMIGA_CLOCK: u64 = 3546816;

/// `value` times a factor with 32 fractional bits.
pub open spec fn scaled(value: int, factor: int) -> int {
    value * factor / (FACTOR_ONE as int)
}

/// A frequency held at the limit.
pub open spec fn capped(freq: int) -> int {
    if freq > FREQ_LIMIT {
        FREQ_LIMIT as int
    } else {
        freq
    }
}

/// Computes `capped(scaled(value, factor))`.
pub(crate) fn scale(value: u64, factor: u64) -> (r: u64)
    requires
        value <= FREQ_LIMIT,
        factor < 0x4_0000_0000_0000,
    ensures
        r == capped(scaled(value as int, factor as int)),
        r <= FREQ_LIMIT,
{
    assert(value * factor <= FREQ_LIMIT * 0x4_0000_0000_0000) by (nonlinear_arith)
        requires
            value <= FREQ_LIMIT,
            factor < 0x4_0000_0000_0000,
    ;
    let wide: u128 = (value as u128) * (factor as u128) / (FACTOR_ONE as u128);
    if wide > FREQ_LIMIT as u128 {
        FREQ_LIMIT
    } else {
        wide as u64
    }
}

/// The frequency at which a sample of base frequency `base` sounds the key
/// `key`: `base * 2^((key - 60) / 12)`, held at the limit.
pub open spec fn note_frequency(base: u32, key: u8) -> int {
    capped(scaled(base as int * ONE as int, pow2_768(64 * (key as int - 60))))
}

/// Computes `note_frequency`.
pub fn note_freq(base: u32, key: u8) -> (r: u64)
    ensures
        r == note_frequency(base, key),
        r <= FREQ_LIMIT,
{
    let factor = exp2_768(64 * (key as i32 - 60));
    scale((base as u64) * ONE, factor)
}

/// The period of a frequency: the Amiga clock divided by the frequency in
/// Hz, rounded down; for frequency zero, the greatest period.
pub open spec fn amiga_period(freq: int) -> int {
    if freq <= 0 {
        0xFFFF_FFFF
    } else if AMIGA_CLOCK * ONE / freq > 0xFFFF_FFFF {
        0xFFFF_FFFF
    } else {
        AMIGA_CLOCK * ONE / freq
    }
}

/// Computes `amiga_period`.
pub fn period(freq: u64) -> (r: u32)
    ensures
        r == amiga_period(freq as int),
{
    if freq == 0 {
        return 0xFFFF_FFFF;
    }
    let p = AMIGA_CLOCK * ONE / freq;
    if p > 0xFFFF_FFFF {
        0xFFFF_FFFF
    } else {
        p as u32
    }
}

/// The frequency of a period: the Amiga clock divided by the period; for
/// period zero, the limit.
pub open spec fn frequency_of_period(period: u16) -> int {
    if period == 0 {
        FREQ_LIMIT as int
    } else {
        AMIGA_CLOCK * ONE / (period as int)
    }
}

/// Computes `frequency_of_period`.
pub fn freq_from_period(period: u16) -> (r: u64)
    ensures
        r == frequency_of_period(period),
        r <= FREQ_LIMIT,
{
    if period == 0 {
        FREQ_LIMIT
    } else {
        AMIGA_CLOCK * ONE / (period as u64)
    }
}

/// A period moved by `by` and held in sixteen bits.
pub open spec fn moved_period(period: int, by: int) -> u16 {
    if period + by < 0 {
        0
    } else if period + by > 0xFFFF {
        0xFFFF
    } else {
        (period + by) as u16
    }
}

/// What part of a slide argument counts, in 768ths of an octave: the low
/// digit for an extra-fine slide (high digit E), twice the low digit for a
/// fine slide (high digit F), four times the argument otherwise.
pub open spec fn slide_steps(value: u8) -> int {
    if value / 16 == 14 {
        value as int % 16
    } else if value / 16 == 15 {
        2 * (value as int % 16)
    } else {
        4 * (value as int)
    }
}

/// A frequency after one tick of a linear slide.
pub open spec fn linear_slide(freq: int, value: u8, up: bool) -> int {
    capped(
        scaled(
            freq,
            pow2_768(
                if up {
                    slide_steps(value)
                } else {
                    -slide_steps(value)
                },
            ),
        ),
    )
}

/// What a fine Amiga slide adds to or takes from a frequency: the
/// frequency over 8363, times the argument, times 8 for an extra-fine
/// slide and 16 for a fine one.
pub open spec fn amiga_fine_delta(freq: int, value: u8) -> int {
    freq * (if value / 16 == 14 {
        8int
    } else {
        16int
    }) * (value as int) / 8363
}

/// A frequency after one tick of an Amiga slide: a fine slide adds or takes
/// its delta; any other moves the period by the argument, down for a slide
/// up.
pub open spec fn amiga_slide(freq: int, value: u8, up: bool) -> int {
    if value / 16 >= 14 {
        if up {
            capped(freq + amiga_fine_delta(freq, value))
        } else if amiga_fine_delta(freq, value) > freq {
            0
        } else {
            freq - amiga_fine_delta(freq, value)
        }
    } else {
        frequency_of_period(
            moved_period(
                amiga_period(freq),
                if up {
                    -(value as int)
                } else {
                    value as int
                },
            ),
        )
    }
}

/// What a pitch slide makes of a frequency before its direction is held.
pub open spec fn slid_freely(freq: int, linear: bool, value: u8, up: bool) -> int {
    if linear {
        linear_slide(freq, value, up)
    } else {
        amiga_slide(freq, value, up)
    }
}

/// A frequency after one tick of a pitch slide. A slide up never lowers the
/// frequency and a slide down never raises it, whatever rounding does.
pub open spec fn slid(freq: int, linear: bool, value: u8, up: bool) -> int {
    let free = slid_freely(freq, linear, value, up);
    if up && free < freq {
        freq
    } else if !up && free > freq {
        freq
    } else {
        free
    }
}

/// Computes `moved_period`.
pub(crate) fn move_period(period: u32, by: u8, up: bool) -> (r: u16)
    ensures
        r == moved_period(
            period as int,
            if up {
                -(by as int)
            } else {
                by as int
            },
        ),
{
    if up {
        if period < by as u32 {
            0
        } else if period - by as u32 > 0xFFFF {
            0xFFFF
        } else {
            (period - by as u32) as u16
        }
    } else {
        let moved = period as u64 + by as u64;
        if moved > 0xFFFF {
            0xFFFF
        } else {
            moved as u16
        }
    }
}

/// Computes `slid`.
pub(crate) fn slide(freq: u64, linear: bool, value: u8, up: bool) -> (r: u64)
    requires
        freq <= FREQ_LIMIT,
    ensures
        r == slid(freq as int, linear, value, up),
        up ==> r >= freq,
        !up ==> r <= freq,
        r <= FREQ_LIMIT,
{
    let free = slide_freely(freq, linear, value, up);
    if up && free < freq {
        freq
    } else if !up && free > freq {
        freq
    } else {
        free
    }
}

/// Computes `slid_freely`.
fn slide_freely(freq: u64, linear: bool, value: u8, up: bool) -> (r: u64)
    requires
        freq <= FREQ_LIMIT,
    ensures
        r == slid_freely(freq as int, linear, value, up),
        r <= FREQ_LIMIT,
{
    if linear {
        let steps: i32 = if value / 16 == 14 {
            (value % 16) as i32
        } else if value / 16 == 15 {
            2 * ((value % 16) as i32)
        } else {
            4 * (value as i32)
        };
        let factor = exp2_768(
            if up {
                steps
            } else {
                -steps
            },
        );
        scale(freq, factor)
    } else if value / 16 >= 14 {
        let k: u128 = if value / 16 == 14 {
            8
        } else {
            16
        };
        assert(freq * k * value <= FREQ_LIMIT * 16 * 255) by (nonlinear_arith)
            requires
                freq <= FREQ_LIMIT,
                k <= 16,
                value <= 255,
        ;
        let delta: u128 = (freq as u128) * k * (value as u128) / 8363;
        if up {
            let sum = freq as u128 + delta;
            if sum > FREQ_LIMIT as u128 {
                FREQ_LIMIT
            } else {
                sum as u64
            }
        } else if delta > freq as u128 {
            0
        } else {
            (freq as u128 - delta) as u64
        }
    } else {
        freq_from_period(move_period(period(freq), value, up))
    }
}

/// `v` held between `low` and `high`.
pub open spec fn held_between(v: int, low: int, high: int) -> int {
    if v < low {
        low
    } else if v > high {
        high
    } else {
        v
    }
}

/// A frequency moved one regular slide step towards `target`: never past
/// the target, and never away from it. A step of nothing moves nothing.
pub open spec fn glided(freq: int, target: int, linear: bool, value: u8) -> int {
    if value == 0 || freq == target {
        freq
    } else if freq < target {
        held_between(
            if linear {
                capped(scaled(freq, pow2_768(4 * (value as int))))
            } else {
                frequency_of_period(moved_period(amiga_period(freq), -(value as int)))
            },
            freq,
            target,
        )
    } else {
        held_between(
            if linear {
                capped(scaled(freq, pow2_768(-4 * (value as int))))
            } else {
                frequency_of_period(moved_period(amiga_period(freq), value as int))
            },
            target,
            freq,
        )
    }
}

/// A glide ends between where it started and its target.
pub proof fn lemma_glided_between(freq: int, target: int, linear: bool, value: u8)
    ensures
        freq <= target ==> freq <= glided(freq, target, linear, value) <= target,
        freq >= target ==> target <= glided(freq, target, linear, value) <= freq,
{
}

/// Computes `glided`.
pub(crate) fn glide(freq: u64, target: u64, linear: bool, value: u8) -> (r: u64)
    requires
        freq <= FREQ_LIMIT,
        target <= FREQ_LIMIT,
    ensures
        r == glided(freq as int, target as int, linear, value),
        freq <= target ==> freq <= r <= target,
        freq >= target ==> target <= r <= freq,
        r <= FREQ_LIMIT,
{
    if value == 0 || freq == target {
        return freq;
    }
    let steps: i32 = 4 * (value as i32);
    if freq < target {
        let up = if linear {
            scale(freq, exp2_768(steps))
        } else {
            freq_from_period(move_period(period(freq), value, true))
        };
        if up < freq {
            freq
        } else if up > target {
            target
        } else {
            up
        }
    } else {
        let down = if linear {
            scale(freq, exp2_768(0 - steps))
        } else {
            freq_from_period(move_period(period(freq), value, false))
        };
        if down < target {
            target
        } else if down > freq {
            freq
        } else {
            down
        }
    }
}

// ---------------------------------------------------------------------------
// Laws
// ---------------------------------------------------------------------------

/// A frequency scaled by a power of two and capped lies below the limit.
pub proof fn lemma_scaled_in_range(freq: int, steps: int)
    requires
        0 <= freq,
    ensures
        0 <= capped(scaled(freq, pow2_768(steps))) <= FREQ_LIMIT,
{
    lemma_pow2_768_nonnegative(steps);
    let factor = pow2_768(steps);
    assert(freq * factor / (FACTOR_ONE as int) >= 0) by (nonlinear_arith)
        requires
            freq >= 0,
            factor >= 0,
    ;
}

/// The frequency of any period lies below the limit.
pub proof fn lemma_period_frequency_in_range(period: u16)
    ensures
        0 <= frequency_of_period(period) <= FREQ_LIMIT,
{
    if period != 0 {
        let p = period as int;
        assert(0 <= AMIGA_CLOCK * ONE / p <= AMIGA_CLOCK * ONE) by (nonlinear_arith)
            requires
                p >= 1,
        ;
    }
}

/// A frequency stays below the limit over any tick of a pitch slide.
pub proof fn lemma_slid_in_range(freq: int, linear: bool, value: u8, up: bool)
    requires
        0 <= freq <= FREQ_LIMIT,
    ensures
        0 <= slid(freq, linear, value, up) <= FREQ_LIMIT,
        up ==> slid(freq, linear, value, up) >= freq,
        !up ==> slid(freq, linear, value, up) <= freq,
{
    if linear {
        let steps = if up {
            slide_steps(value)
        } else {
            -slide_steps(value)
        };
        lemma_scaled_in_range(freq, steps);
    } else if value / 16 >= 14 {
        let k = if value / 16 == 14 {
            8int
        } else {
            16int
        };
        assert(freq * k * (value as int) / 8363 >= 0) by (nonlinear_arith)
            requires
                freq >= 0,
                k >= 0,
                value >= 0,
        ;
    } else {
        lemma_period_frequency_in_range(
            moved_period(
                amiga_period(freq),
                if up {
                    -(value as int)
                } else {
                    value as int
                },
            ),
        );
    }
}

/// The frequency of any key of any sample lies below the limit.
pub proof fn lemma_note_frequency_in_range(base: u32, key: u8)
    ensures
        0 <= note_frequency(base, key) <= FREQ_LIMIT,
{
    lemma_scaled_in_range(base as int * ONE as int, 64 * (key as int - 60));
}

} // verus!
