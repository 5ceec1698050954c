//! Arithmetic on Scream Tracker 2's tempo byte.

use vstd::prelude::*;

verus! {

/// The factor by which each value of the high digit of a tempo byte scales
/// its low digit.
pub open spec fn stm_tempo_factor(high: int) -> int {
    if high == 0 {
        140
    } else if high == 1 {
        50
    } else if high == 2 {
        25
    } else if high == 3 {
        15
    } else if high == 4 {
        10
    } else if high == 5 {
        7
    } else if high == 6 {
        6
    } else if high == 7 {
        4
    } else if high == 8 || high == 9 {
        3
    } else if high <= 13 {
        2
    } else {
        1
    }
}

/// The mixing rate of Scream Tracker 2, in Hz.
#[verifier::inline]
pub const ST2_MIXING_RATE: u32 = 23863;

/// The low digit of a tempo byte scaled by the factor of its high digit.
pub open spec fn stm_tempo_product(tempo: u8) -> int {
    stm_tempo_factor(tempo as int / 16) * (tempo as int % 16)
}

/// Output frames per tick at Scream Tracker 2's mixing rate.
pub open spec fn stm_samples_per_tick(tempo: u8) -> int {
    ST2_MIXING_RATE as int / (50 - stm_tempo_product(tempo) / 16)
}

/// The tempo, in the canonical module's beats per minute, at which a tick
/// lasts as long as Scream Tracker 2 makes it for this tempo byte.
pub open spec fn stm_tempo(tempo: u8) -> int {
    (ST2_MIXING_RATE as int * 5 + stm_samples_per_tick(tempo)) / (2 * stm_samples_per_tick(tempo))
}

/// Converts a Scream Tracker 2 tempo byte to beats per minute.
///
/// The scaled low digit must fit in a byte, which it does for every tempo
/// byte whose high digit is 3 or more.
pub fn calculate_stm_tempo(tempo: u8) -> (r: u8)
    requires
        stm_tempo_product(tempo) <= 255,
    ensures
        r == stm_tempo(tempo),
        88 <= r <= 125,
{
    let tempo_table: [u8; 16] = [140, 50, 25, 15, 10, 7, 6, 4, 3, 3, 2, 2, 2, 2, 1, 1];
    let factor = tempo_table[(tempo / 16) as usize];
    assert(factor == stm_tempo_factor(tempo as int / 16));
    let scaled: u32 = ((factor * (tempo % 16)) / 16) as u32;
    let divisor: u32 = 50 - scaled;
    let samples_per_tick: u32 = ST2_MIXING_RATE / divisor;
    assert(477 <= samples_per_tick <= 681) by (nonlinear_arith)
        requires
            35 <= divisor <= 50,
            samples_per_tick == 23863u32 / divisor,
    ;
    let rate: u32 = ST2_MIXING_RATE * 5 + samples_per_tick;
    let ticks: u32 = samples_per_tick * 2;
    let r: u32 = rate / ticks;
    assert(88 <= r <= 125) by (nonlinear_arith)
        requires
            954 <= ticks <= 1362,
            rate == 119315 + ticks / 2,
            ticks % 2 == 0,
            r == rate / ticks,
    ;
    r as u8
}

/// Whether `calculate_stm_tempo` accepts `tempo`.
pub fn stm_tempo_in_range(tempo: u8) -> (r: bool)
    ensures
        r == (stm_tempo_product(tempo) <= 255),
{
    let tempo_table: [u16; 16] = [140, 50, 25, 15, 10, 7, 6, 4, 3, 3, 2, 2, 2, 2, 1, 1];
    let factor = tempo_table[(tempo / 16) as usize];
    assert(factor == stm_tempo_factor(tempo as int / 16));
    let low = (tempo % 16) as u16;
    assert(factor * low <= 2100) by (nonlinear_arith)
        requires
            factor <= 140,
            low <= 15,
    ;
    factor * low <= 255
}

} // verus!
