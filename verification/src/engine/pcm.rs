//! Sample data as the formats store it, turned into signed 16-bit frames.

use super::bytes::{le_u16, signed16, signed8, u16_at};
use vstd::prelude::*;

verus! {

/// Bytes per stored frame.
pub open spec fn pcm_width(wide: bool) -> int {
    if wide {
        2
    } else {
        1
    }
}

/// How many of the `length` frames stored from `ptr` on lie wholly inside
/// the file. A region that runs past the end yields the frames before it.
pub open spec fn pcm_frames(b: Seq<u8>, ptr: int, length: int, wide: bool) -> int {
    if ptr >= b.len() {
        0
    } else {
        let room = (b.len() - ptr) / pcm_width(wide);
        if length <= room {
            length
        } else {
            room
        }
    }
}

/// The value of frame `i` of the data stored from `ptr` on.
///
/// Eight-bit data is scaled by 256; unsigned data is first moved down by
/// 128 (eight-bit) or 32767 (sixteen-bit), the latter held at 32767.
pub open spec fn pcm_frame(b: Seq<u8>, ptr: int, i: int, wide: bool, signed: bool) -> int {
    if wide {
        let v = u16_at(b, ptr + 2 * i);
        if signed {
            signed16(v)
        } else if v == 65535 {
            32767
        } else {
            v - 32767
        }
    } else {
        let v = b[ptr + i];
        if signed {
            signed8(v) * 256
        } else {
            (v as int - 128) * 256
        }
    }
}

/// Frame `i` of eight-bit signed data of which the part past the end of
/// the file reads as silence.
pub open spec fn pcm_frame_padded(b: Seq<u8>, ptr: int, i: int) -> int {
    if ptr + i < b.len() {
        signed8(b[ptr + i]) * 256
    } else {
        0
    }
}

/// One stored eight-bit value as a frame.
fn narrow_frame(v: u8, signed: bool) -> (r: i16)
    ensures
        r == if signed {
            signed8(v) * 256
        } else {
            (v as int - 128) * 256
        },
{
    if signed {
        if v < 128 {
            (v as i16) * 256
        } else {
            (v as i16 - 256) * 256
        }
    } else {
        (v as i16 - 128) * 256
    }
}

/// One stored sixteen-bit value as a frame.
fn wide_frame(v: u16, signed: bool) -> (r: i16)
    ensures
        r == if signed {
            signed16(v as int)
        } else if v == 65535 {
            32767
        } else {
            v as int - 32767
        },
{
    if signed {
        if v < 32768 {
            v as i16
        } else {
            (v as i32 - 65536) as i16
        }
    } else if v == 65535 {
        32767
    } else {
        (v as i32 - 32767) as i16
    }
}

/// Decodes the frames stored from `ptr` on, as many of `length` as the file
/// holds.
pub(crate) fn decode_pcm(b: &[u8], ptr: usize, length: usize, wide: bool, signed: bool) -> (r: Vec<
    i16,
>)
    ensures
        r@.len() == pcm_frames(b@, ptr as int, length as int, wide),
        forall|i: int|
            0 <= i < r@.len() ==> (#[trigger] r@[i]) == pcm_frame(b@, ptr as int, i, wide, signed),
{
    let len = b.len();
    let mut r: Vec<i16> = Vec::new();
    if ptr >= len {
        return r;
    }
    let width: usize = if wide {
        2
    } else {
        1
    };
    let room = (len - ptr) / width;
    let n = if length <= room {
        length
    } else {
        room
    };
    let mut i: usize = 0;
    while i < n
        invariant
            i <= n,
            b@.len() == len,
            ptr < len,
            width == pcm_width(wide),
            n * width <= len - ptr,
            r@.len() == i,
            forall|j: int|
                0 <= j < i ==> (#[trigger] r@[j]) == pcm_frame(b@, ptr as int, j, wide, signed),
        decreases n - i,
    {
        if wide {
            r.push(wide_frame(le_u16(b, ptr + 2 * i), signed));
        } else {
            r.push(narrow_frame(b[ptr + i], signed));
        }
        i += 1;
    }
    r
}

/// Decodes `length` eight-bit signed frames stored from `ptr` on, reading
/// silence where the file has ended.
pub(crate) fn decode_pcm_padded(b: &[u8], ptr: usize, length: usize) -> (r: Vec<i16>)
    ensures
        r@.len() == length,
        forall|i: int|
            0 <= i < r@.len() ==> (#[trigger] r@[i]) == pcm_frame_padded(b@, ptr as int, i),
{
    let len = b.len();
    let mut r: Vec<i16> = Vec::new();
    let mut i: usize = 0;
    while i < length
        invariant
            i <= length,
            b@.len() == len,
            r@.len() == i,
            forall|j: int|
                0 <= j < i ==> (#[trigger] r@[j]) == pcm_frame_padded(b@, ptr as int, j),
        decreases length - i,
    {
        if ptr < len && i < len - ptr {
            r.push(narrow_frame(b[ptr + i], true));
        } else {
            r.push(0);
        }
        i += 1;
    }
    r
}

} // verus!
