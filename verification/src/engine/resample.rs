//! Resampling a stretch of stored frames to a stretch of output frames.

use super::lut::{lut_sinc, sinc_q16};
use super::pitch::ONE;
use vstd::prelude::*;

verus! {

/// The number of frames of a sample that can be played.
#[verifier::inline]
pub const FRAMES_LIMIT: u64 = 0x1_0000_0000;

/// What a stored frame is multiplied by on its way to the output.
#[verifier::inline]
pub const FRAME_GAIN: i64 = 32768;

/// The longest stretch of output, in frames, that is resampled in one go.
#[verifier::inline]
pub const SEGMENT_LIMIT: usize = 0xFFFF_FFFF;

/// A value held in the range of 32-bit frames.
pub open spec fn clamped_frame(v: int) -> int {
    if v > i32::MAX {
        i32::MAX as int
    } else if v < i32::MIN {
        i32::MIN as int
    } else {
        v
    }
}

/// Computes `clamped_frame`.
fn clamp_frame(v: i64) -> (r: i32)
    ensures
        r == clamped_frame(v as int),
{
    if v > i32::MAX as i64 {
        i32::MAX
    } else if v < i32::MIN as i64 {
        i32::MIN
    } else {
        v as i32
    }
}

/// Half of `v`, rounded down.
fn halved(v: i64) -> (r: i64)
    requires
        -0x4000_0000_0000_0000 <= v <= 0x4000_0000_0000_0000,
    ensures
        r == v as int / 2,
{
    if v >= 0 {
        v / 2
    } else {
        -((-v + 1) / 2)
    }
}

/// Output frame `i` of `n` by nearest neighbour: the stored frame at the
/// same relative place, counted from the end when playing backwards.
pub open spec fn nearest_frame(from: Seq<i16>, n: int, i: int, backwards: bool) -> int {
    let ix = i * from.len() / n;
    if backwards {
        from[from.len() - 1 - ix] * FRAME_GAIN
    } else {
        from[ix] * FRAME_GAIN
    }
}

/// The place in the stored frames, with 16 fractional bits, that output
/// frame `i` of `n` is read from by linear interpolation: the first output
/// frame reads the first stored frame and the last the last, or the other
/// way round when playing backwards.
pub open spec fn linear_place(len: int, n: int, i: int, backwards: bool) -> int {
    let x = if n > 1 {
        i * (len - 1) * ONE / (n - 1)
    } else {
        0
    };
    if backwards {
        (len - 1) * ONE - x
    } else {
        x
    }
}

/// Output frame `i` of `n` by linear interpolation: the two stored frames
/// around its place, weighted by how near each is. A single stored frame
/// is repeated.
pub open spec fn linear_frame(from: Seq<i16>, n: int, i: int, backwards: bool) -> int {
    let len = from.len() as int;
    let x = linear_place(len, n, i, backwards);
    let ix = x / (ONE as int);
    let alpha = x % (ONE as int);
    if len == 1 || ix + 1 >= len {
        from[len - 1] * FRAME_GAIN
    } else {
        (from[ix] * (ONE - alpha) + from[ix + 1] * alpha) / 2
    }
}

/// Fills `to` with `from` resampled by linear interpolation.
pub fn buf_linear(from: &[i16], to: &mut [i32], backwards: bool)
    requires
        1 <= from@.len() <= FRAMES_LIMIT,
        old(to)@.len() <= SEGMENT_LIMIT,
    ensures
        final(to)@.len() == old(to)@.len(),
        forall|i: int|
            0 <= i < final(to)@.len() ==> (#[trigger] final(to)@[i]) == linear_frame(
                from@,
                final(to)@.len() as int,
                i,
                backwards,
            ),
{
    let len = from.len();
    let n = to.len();
    let mut i: usize = 0;
    while i < n
        invariant
            i <= n,
            to@.len() == n,
            from@.len() == len,
            1 <= len <= FRAMES_LIMIT,
            n <= SEGMENT_LIMIT,
            forall|j: int|
                0 <= j < i ==> (#[trigger] to@[j]) == linear_frame(from@, n as int, j, backwards),
        decreases n - i,
    {
        let span: u128 = (len - 1) as u128;
        let x: u128 = if n > 1 {
            assert(i * span * ONE <= (n - 1) * span * ONE) by (nonlinear_arith)
                requires
                    i <= n - 1,
                    span >= 0,
            ;
            assert((n - 1) * span * ONE <= 0xFFFF_FFFF * 0xFFFF_FFFF * 0x1_0000) by (nonlinear_arith)
                requires
                    n - 1 <= 0xFFFF_FFFF,
                    0 <= span <= 0xFFFF_FFFF,
            ;
            let num = (i as u128) * span * (ONE as u128);
            assert(num / ((n - 1) as u128) <= span * ONE) by (nonlinear_arith)
                requires
                    num <= (n - 1) * span * ONE,
                    n - 1 > 0,
                    span >= 0,
            ;
            num / ((n - 1) as u128)
        } else {
            0
        };
        let place: u128 = if backwards {
            span * (ONE as u128) - x
        } else {
            x
        };
        let ix = (place / (ONE as u128)) as usize;
        let alpha = (place % (ONE as u128)) as i64;
        let value: i32 = if len == 1 || ix + 1 >= len {
            (from[len - 1] as i64 * FRAME_GAIN) as i32
        } else {
            let a = from[ix] as i64;
            let b = from[ix + 1] as i64;
            let one = ONE as i64;
            assert(-32768 * 65536 <= a * (one - alpha) <= 32768 * 65536) by (nonlinear_arith)
                requires
                    -32768 <= a <= 32767,
                    0 <= one - alpha <= 65536,
            ;
            assert(-32768 * 65536 <= b * alpha <= 32768 * 65536) by (nonlinear_arith)
                requires
                    -32768 <= b <= 32767,
                    0 <= alpha <= 65536,
            ;
            assert(a * (one - alpha) + b * alpha <= 32767 * 65536 && a * (one - alpha) + b * alpha
                >= -32768 * 65536) by (nonlinear_arith)
                requires
                    -32768 <= a <= 32767,
                    -32768 <= b <= 32767,
                    0 <= alpha < 65536,
                    one == 65536,
            ;
            halved(a * (one - alpha) + b * alpha) as i32
        };
        to[i] = value;
        i += 1;
    }
}

/// The stored frame that stands in for index `ix` where that lies outside
/// the `len` frames at hand: mirrored at the ends for a ping-pong loop,
/// taken round for any other.
pub open spec fn wrapped(ix: int, len: int, pingpong: bool) -> int {
    if pingpong {
        if ix < 0 {
            if -ix < len - 1 {
                -ix
            } else {
                len - 1
            }
        } else if ix >= len {
            if 2 * len - ix - 2 > 0 {
                2 * len - ix - 2
            } else {
                0
            }
        } else {
            ix
        }
    } else {
        ix % len
    }
}

/// Computes `wrapped`.
fn wrap(ix: i64, len: usize, pingpong: bool) -> (r: usize)
    requires
        1 <= len <= FRAMES_LIMIT,
        -0x2_0000_0000 <= ix <= 0x2_0000_0000,
    ensures
        r == wrapped(ix as int, len as int, pingpong),
        r < len,
{
    let l = len as i64;
    if pingpong {
        if ix < 0 {
            if -ix < l - 1 {
                (-ix) as usize
            } else {
                (l - 1) as usize
            }
        } else if ix >= l {
            if 2 * l - ix - 2 > 0 {
                (2 * l - ix - 2) as usize
            } else {
                0
            }
        } else {
            ix as usize
        }
    } else if ix >= 0 {
        (ix % l) as usize
    } else {
        let n = -ix;
        let whole = n / l;
        let m = n % l;
        proof {
            vstd::arithmetic::div_mod::lemma_fundamental_div_mod(n as int, l as int);
            assert(l * whole == whole * l) by (nonlinear_arith);
            if m == 0 {
                assert(ix == (-whole) * l + 0) by (nonlinear_arith)
                    requires
                        n == whole * l + m,
                        m == 0,
                        ix == -n,
                ;
                vstd::arithmetic::div_mod::lemma_fundamental_div_mod_converse(
                    ix as int,
                    l as int,
                    -whole,
                    0,
                );
            } else {
                assert(ix == (-whole - 1) * l + (l - m)) by (nonlinear_arith)
                    requires
                        n == whole * l + m,
                        ix == -n,
                ;
                vstd::arithmetic::div_mod::lemma_fundamental_div_mod_converse(
                    ix as int,
                    l as int,
                    -whole - 1,
                    l - m,
                );
            }
        }
        if m == 0 {
            0
        } else {
            (l - m) as usize
        }
    }
}

/// The sum, over the taps `k` from `first` to `last`, of the stored frame
/// `k` places from `cx` times the sinc of its distance from the place
/// `cx + j/64`.
pub open spec fn sinc_sum(
    from: Seq<i16>,
    cx: int,
    j: int,
    pingpong: bool,
    first: int,
    last: int,
) -> int
    decreases last - first + 1,
{
    if first > last {
        0
    } else {
        from[wrapped(cx + first, from.len() as int, pingpong)] * sinc_q16(64 * first - j)
            + sinc_sum(from, cx, j, pingpong, first + 1, last)
    }
}

/// The place in the stored frames, with 16 fractional bits, that output
/// frame `i` of `n` is read from by sinc interpolation.
pub open spec fn sinc_place(len: int, n: int, i: int, backwards: bool) -> int {
    let x = i * (len - 1) * ONE / n;
    if backwards {
        (len - 1) * ONE - x
    } else {
        x
    }
}

/// Output frame `i` of `n` by sinc interpolation over `quality` stored
/// frames to each side of its place.
pub open spec fn sinc_frame(
    from: Seq<i16>,
    n: int,
    i: int,
    backwards: bool,
    quality: int,
    pingpong: bool,
) -> int {
    let x = sinc_place(from.len() as int, n, i, backwards);
    clamped_frame(
        sinc_sum(from, x / (ONE as int), (x % (ONE as int)) / 1024, pingpong, 1 - quality, quality)
            / 2,
    )
}

/// Fills `to` with `from` resampled by sinc interpolation.
pub fn buf_sinc(from: &[i16], to: &mut [i32], backwards: bool, quality: isize, pingpong: bool)
    requires
        1 <= from@.len() <= FRAMES_LIMIT,
        old(to)@.len() <= SEGMENT_LIMIT,
        1 <= quality <= 64,
    ensures
        final(to)@.len() == old(to)@.len(),
        forall|i: int|
            0 <= i < final(to)@.len() ==> (#[trigger] final(to)@[i]) == sinc_frame(
                from@,
                final(to)@.len() as int,
                i,
                backwards,
                quality as int,
                pingpong,
            ),
{
    let len = from.len();
    let n = to.len();
    let q = quality as i64;
    let mut i: usize = 0;
    while i < n
        invariant
            i <= n,
            to@.len() == n,
            from@.len() == len,
            1 <= len <= FRAMES_LIMIT,
            n <= SEGMENT_LIMIT,
            q == quality,
            1 <= q <= 64,
            forall|j: int|
                0 <= j < i ==> (#[trigger] to@[j]) == sinc_frame(
                    from@,
                    n as int,
                    j,
                    backwards,
                    quality as int,
                    pingpong,
                ),
        decreases n - i,
    {
        let span: u128 = (len - 1) as u128;
        assert(i * span * ONE <= n * span * ONE) by (nonlinear_arith)
            requires
                i <= n,
                span >= 0,
        ;
        assert(n * span * ONE <= 0xFFFF_FFFF * 0xFFFF_FFFF * 0x1_0000) by (nonlinear_arith)
            requires
                n <= 0xFFFF_FFFF,
                0 <= span <= 0xFFFF_FFFF,
        ;
        let num = (i as u128) * span * (ONE as u128);
        assert(num / (n as u128) <= span * ONE) by (nonlinear_arith)
            requires
                num <= n * span * ONE,
                n > 0,
                span >= 0,
        ;
        let x: u128 = num / (n as u128);
        let place: u128 = if backwards {
            span * (ONE as u128) - x
        } else {
            x
        };
        let cx = (place / (ONE as u128)) as i64;
        let j = ((place % (ONE as u128)) / 1024) as i32;
        let mut sum: i64 = 0;
        let mut k: i64 = 1 - q;
        while k <= q
            invariant
                1 - q <= k <= q + 1,
                1 <= q <= 64,
                from@.len() == len,
                1 <= len <= FRAMES_LIMIT,
                0 <= cx <= 0xFFFF_FFFF,
                0 <= j < 64,
                -0x8000_0000 * (k - (1 - q)) <= sum <= 0x8000_0000 * (k - (1 - q)),
                sum + sinc_sum(from@, cx as int, j as int, pingpong, k as int, q as int)
                    == sinc_sum(from@, cx as int, j as int, pingpong, 1 - q, q as int),
            decreases q + 1 - k,
        {
            let frame = from[wrap(cx + k, len, pingpong)] as i64;
            let weight = lut_sinc((64 * k) as i32 - j) as i64;
            assert(-0x8000_0000 <= frame * weight <= 0x8000_0000) by (nonlinear_arith)
                requires
                    -32768 <= frame <= 32767,
                    -65536 <= weight <= 65536,
            ;
            sum = sum + frame * weight;
            k += 1;
        }
        to[i] = clamp_frame(halved(sum));
        i += 1;
    }
}

} // verus!
