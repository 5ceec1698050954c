//! Precomputed tables for pitch and for band-limited interpolation, and the
//! fixed-point arithmetic on them. Pitch factors are numbers with 32
//! fractional bits; sine and sinc values have 16.

use vstd::prelude::*;

verus! {

/// One in the 32-bit fixed-point scale of the pitch factors.
#[verifier::inline]
pub const FACTOR_ONE: u64 = 0x1_0000_0000;

/// One in the 16-bit fixed-point scale of the sine and sinc values.
#[verifier::inline]
pub const SINC_ONE: i32 = 0x1_0000;

/// `2^(a/12)` for each of the twelve semitones of an octave.
pub const SEMITONES: [u64; 12] = [
    4294967296,
    4550359342,
    4820937788,
    5107605667,
    5411319705,
    5733093519,
    6074001000,
    6435179895,
    6817835604,
    7223245206,
    7652761717,
    8107818609,
];

/// `2^(b/768)` for each of the 64 slide steps of a semitone.
pub const FINE_STEPS: [u64; 64] = [
    4294967296,
    4298845406,
    4302727017,
    4306612134,
    4310500758,
    4314392894,
    4318288544,
    4322187711,
    4326090400,
    4329996612,
    4333906351,
    4337819620,
    4341736423,
    4345656763,
    4349580643,
    4353508065,
    4357439034,
    4361373552,
    4365311623,
    4369253250,
    4373198435,
    4377147183,
    4381099497,
    4385055379,
    4389014833,
    4392977863,
    4396944470,
    4400914660,
    4404888434,
    4408865796,
    4412846750,
    4416831298,
    4420819444,
    4424811191,
    4428806543,
    4432805502,
    4436808071,
    4440814255,
    4444824057,
    4448837478,
    4452854524,
    4456875197,
    4460899500,
    4464927438,
    4468959012,
    4472994226,
    4477033084,
    4481075589,
    4485121744,
    4489171552,
    4493225017,
    4497282142,
    4501342931,
    4505407386,
    4509475511,
    4513547310,
    4517622785,
    4521701940,
    4525784778,
    4529871303,
    4533961517,
    4538055425,
    4542153030,
    4546254334,
];

/// `sin(pi * r / 64)` for `r` from 0 to 64.
pub const HALF_SINE: [u32; 65] = [
    0,
    3216,
    6424,
    9616,
    12785,
    15924,
    19024,
    22078,
    25080,
    28020,
    30893,
    33692,
    36410,
    39040,
    41576,
    44011,
    46341,
    48559,
    50660,
    52639,
    54491,
    56212,
    57798,
    59244,
    60547,
    61705,
    62714,
    63572,
    64277,
    64827,
    65220,
    65457,
    65536,
    65457,
    65220,
    64827,
    64277,
    63572,
    62714,
    61705,
    60547,
    59244,
    57798,
    56212,
    54491,
    52639,
    50660,
    48559,
    46341,
    44011,
    41576,
    39040,
    36410,
    33692,
    30893,
    28020,
    25080,
    22078,
    19024,
    15924,
    12785,
    9616,
    6424,
    3216,
    0,
];

/// `1/pi` with 32 fractional bits.
#[verifier::inline]
pub const INV_PI: u64 = 1367130551;

/// The lowest exponent, in 768ths of an octave, that `exp2_768` takes.
pub const EXP2_MIN: i32 = -6144;

/// The highest exponent, in 768ths of an octave, that `exp2_768` takes.
pub const EXP2_MAX: i32 = 13055;

/// Two to the power `n`.
pub open spec fn two_to(n: nat) -> nat
    decreases n,
{
    if n == 0 {
        1
    } else {
        2 * two_to((n - 1) as nat)
    }
}

/// The factor of the part of an exponent that lies inside one octave: the
/// product of the semitone's factor and the slide step's.
pub open spec fn octave_factor(r: int) -> int {
    (SEMITONES[r / 64] * FINE_STEPS[r % 64]) / (FACTOR_ONE as int)
}

/// `2^(x/768)` with 32 fractional bits: the factor of the place of `x`
/// inside its octave, doubled or halved once for each octave.
pub open spec fn pow2_768(x: int) -> int {
    let octave = x / 768;
    let m = octave_factor(x % 768);
    if octave >= 0 {
        m * two_to(octave as nat)
    } else {
        m / (two_to((-octave) as nat) as int)
    }
}

/// Powers of two are positive and grow with the exponent.
pub proof fn lemma_two_to_monotonic(n: nat, k: nat)
    requires
        n <= k,
    ensures
        1 <= two_to(n) <= two_to(k),
    decreases k,
{
    if k > 0 {
        if n < k {
            lemma_two_to_monotonic(n, (k - 1) as nat);
        } else {
            lemma_two_to_monotonic((n - 1) as nat, (k - 1) as nat);
        }
    }
}

proof fn lemma_two_to_values()
    ensures
        two_to(8) == 256,
        two_to(17) == 131072,
{
    reveal_with_fuel(two_to, 18);
}

fn octave_factor_of(r: u32) -> (m: u64)
    requires
        r < 768,
    ensures
        m == octave_factor(r as int),
        FACTOR_ONE <= m < 2 * FACTOR_ONE,
{
    let a = SEMITONES[(r / 64) as usize];
    let b = FINE_STEPS[(r % 64) as usize];
    assert(FACTOR_ONE <= a <= 8107818609);
    assert(FACTOR_ONE <= b <= 4546254334);
    assert(FACTOR_ONE * FACTOR_ONE <= a * b <= 8107818609 * 4546254334) by (nonlinear_arith)
        requires
            FACTOR_ONE <= a <= 8107818609,
            FACTOR_ONE <= b <= 4546254334,
    ;
    (((a as u128) * (b as u128)) / (FACTOR_ONE as u128)) as u64
}

/// Computes `pow2_768`.
pub fn exp2_768(x: i32) -> (f: u64)
    requires
        EXP2_MIN <= x <= EXP2_MAX,
    ensures
        f == pow2_768(x as int),
        0 < f < 0x4_0000_0000_0000,
{
    let (octave, r): (i32, u32) = if x >= 0 {
        (x / 768, (x % 768) as u32)
    } else {
        let n = -x;
        let o = (n + 767) / 768;
        (-o, (768 * o - n) as u32)
    };
    assert(x == 768 * octave + r);
    let m = octave_factor_of(r);
    let steps: u32 = if octave >= 0 {
        octave as u32
    } else {
        (-octave) as u32
    };
    let mut scale: u64 = 1;
    let mut i: u32 = 0;
    while i < steps
        invariant
            i <= steps <= 17,
            scale == two_to(i as nat),
            1 <= scale <= 131072,
        decreases steps - i,
    {
        proof {
            lemma_two_to_values();
            lemma_two_to_monotonic((i + 1) as nat, 17);
        }
        scale = scale * 2;
        i += 1;
    }
    proof {
        lemma_two_to_values();
        if octave < 0 {
            lemma_two_to_monotonic(steps as nat, 8);
        }
    }
    if octave >= 0 {
        assert(m * scale < 0x4_0000_0000_0000) by (nonlinear_arith)
            requires
                m < 2 * FACTOR_ONE,
                scale <= 131072,
        ;
        assert(m * scale > 0) by (nonlinear_arith)
            requires
                m >= FACTOR_ONE,
                scale >= 1,
        ;
        m * scale
    } else {
        assert(scale <= 256);
        assert(m / scale > 0) by (nonlinear_arith)
            requires
                m >= FACTOR_ONE,
                1 <= scale <= 256,
        ;
        assert(m / scale <= m) by (nonlinear_arith)
            requires
                scale >= 1,
        ;
        m / scale
    }
}

/// No power of two is negative.
pub proof fn lemma_pow2_768_nonnegative(x: int)
    ensures
        pow2_768(x) >= 0,
{
    let octave = x / 768;
    let r = x % 768;
    let a = SEMITONES[r / 64] as int;
    let b = FINE_STEPS[r % 64] as int;
    assert(a * b / (FACTOR_ONE as int) >= 0) by (nonlinear_arith)
        requires
            a >= 0,
            b >= 0,
    ;
    let m = octave_factor(r);
    if octave >= 0 {
        lemma_two_to_monotonic(0, octave as nat);
        let t = two_to(octave as nat) as int;
        assert(m * t >= 0) by (nonlinear_arith)
            requires
                m >= 0,
                t >= 1,
        ;
    } else {
        lemma_two_to_monotonic(0, (-octave) as nat);
        let t = two_to((-octave) as nat) as int;
        assert(m / t >= 0) by (nonlinear_arith)
            requires
                m >= 0,
                t >= 1,
        ;
    }
}

/// `sin(pi * n / 64)` with 16 fractional bits, for `n` from 0 on: the table
/// for the first half period, its negative for the second, and so on.
pub open spec fn sine_q16(n: int) -> int {
    let r = n % 128;
    if r < 64 {
        HALF_SINE[r] as int
    } else {
        -(HALF_SINE[r - 64] as int)
    }
}

/// A value held within one in magnitude.
pub open spec fn within_one(v: int) -> int {
    if v > SINC_ONE {
        SINC_ONE as int
    } else if v < -SINC_ONE {
        -SINC_ONE
    } else {
        v
    }
}

/// `sinc(j/64) = sin(pi*j/64) / (pi*j/64)` with 16 fractional bits, one at
/// zero, held within one in magnitude.
pub open spec fn sinc_q16(j: int) -> int {
    let n = if j < 0 {
        -j
    } else {
        j
    };
    if n == 0 {
        SINC_ONE as int
    } else {
        let s = sine_q16(n);
        if s >= 0 {
            within_one((s * 64 * INV_PI / (FACTOR_ONE as int)) / n)
        } else {
            -within_one(((-s) * 64 * INV_PI / (FACTOR_ONE as int)) / n)
        }
    }
}

/// Computes `sinc_q16`: the normalised sinc of `j/64`.
pub fn lut_sinc(j: i32) -> (r: i32)
    ensures
        r == sinc_q16(j as int),
        -SINC_ONE <= r <= SINC_ONE,
{
    let n: u64 = if j < 0 {
        (-(j as i64)) as u64
    } else {
        j as u64
    };
    if n == 0 {
        return SINC_ONE;
    }
    let r = (n % 128) as usize;
    let (s, negative): (u64, bool) = if r < 64 {
        (HALF_SINE[r] as u64, false)
    } else {
        (HALF_SINE[r - 64] as u64, true)
    };
    assert(s <= 65536);
    assert(s * 64 * INV_PI <= 65536 * 64 * INV_PI) by (nonlinear_arith)
        requires
            s <= 65536,
    ;
    let scaled = s * 64 * INV_PI / FACTOR_ONE;
    let q = scaled / n;
    let mag: i32 = if q > 65536 {
        SINC_ONE
    } else {
        q as i32
    };
    if negative && s != 0 {
        -mag
    } else {
        mag
    }
}

} // verus!
