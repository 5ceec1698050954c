//! Little-endian field access on a byte image of a file.

use byteorder::ByteOrder;
use vstd::prelude::*;

verus! {

/// The unsigned 16-bit little-endian number stored at `off`.
pub open spec fn u16_at(b: Seq<u8>, off: int) -> int {
    b[off] as int + 256 * (b[off + 1] as int)
}

/// The unsigned 32-bit little-endian number stored at `off`.
pub open spec fn u32_at(b: Seq<u8>, off: int) -> int {
    b[off] as int + 256 * (b[off + 1] as int) + 65536 * (b[off + 2] as int) + 16777216 * (b[off
        + 3] as int)
}

/// The byte `v` read as a two's-complement number.
pub open spec fn signed8(v: u8) -> int {
    if v < 128 {
        v as int
    } else {
        v as int - 256
    }
}

/// The 16-bit number `v` read as a two's-complement number.
pub open spec fn signed16(v: int) -> int {
    if v < 32768 {
        v
    } else {
        v - 65536
    }
}

/// `n` zero bytes.
pub open spec fn zeros(n: nat) -> Seq<u8> {
    Seq::new(n, |i: int| 0u8)
}

/// Whether the `n` bytes starting at `off` all lie inside `b`.
pub open spec fn fits(b: Seq<u8>, off: int, n: int) -> bool {
    0 <= off && 0 <= n && off + n <= b.len()
}

/// `byteorder::LittleEndian::read_u16` on the bytes from `off` on. The outside
/// function reads the first two bytes of its slice, least significant first,
/// and panics on a shorter slice.
#[verifier::external_body]
pub(crate) fn le_u16(b: &[u8], off: usize) -> (r: u16)
    requires
        off + 2 <= b@.len(),
    ensures
        r as int == u16_at(b@, off as int),
{
    byteorder::LittleEndian::read_u16(&b[off..])
}

/// `byteorder::LittleEndian::read_u32` on the bytes from `off` on. The outside
/// function reads the first four bytes of its slice, least significant first,
/// and panics on a shorter slice.
#[verifier::external_body]
pub(crate) fn le_u32(b: &[u8], off: usize) -> (r: u32)
    requires
        off + 4 <= b@.len(),
    ensures
        r as int == u32_at(b@, off as int),
{
    byteorder::LittleEndian::read_u32(&b[off..])
}

/// Tests that `n` bytes starting at `off` lie inside `b`.
pub(crate) fn in_bounds(b: &[u8], off: usize, n: usize) -> (r: bool)
    ensures
        r == fits(b@, off as int, n as int),
        b@.len() <= usize::MAX,
{
    let len = b.len();
    off <= len && n <= len - off
}

/// Copies the `N` bytes at `off` into an array.
pub(crate) fn array_at<const N: usize>(b: &[u8], off: usize) -> (r: [u8; N])
    requires
        fits(b@, off as int, N as int),
    ensures
        r@ == b@.subrange(off as int, off + N),
{
    let len = b.len();
    let mut r = [0u8; N];
    let mut i: usize = 0;
    while i < N
        invariant
            i <= N,
            b@.len() == len,
            fits(b@, off as int, N as int),
            forall|j: int| 0 <= j < i ==> r@[j] == b@[off + j],
        decreases N - i,
    {
        r[i] = b[off + i];
        i += 1;
    }
    assert(r@ =~= b@.subrange(off as int, off + N));
    r
}

/// Copies the `n` bytes at `off` into a vector.
pub(crate) fn vec_at(b: &[u8], off: usize, n: usize) -> (r: Vec<u8>)
    requires
        fits(b@, off as int, n as int),
    ensures
        r@ == b@.subrange(off as int, off + n),
{
    let len = b.len();
    let mut r: Vec<u8> = Vec::new();
    let mut i: usize = 0;
    while i < n
        invariant
            i <= n,
            b@.len() == len,
            fits(b@, off as int, n as int),
            r@.len() == i,
            forall|j: int| 0 <= j < i ==> r@[j] == b@[off + j],
        decreases n - i,
    {
        r.push(b[off + i]);
        i += 1;
    }
    assert(r@ =~= b@.subrange(off as int, off + n));
    r
}

/// `s` without the zero bytes at its end.
pub open spec fn trim_nuls(s: Seq<u8>) -> Seq<u8>
    decreases s.len(),
{
    if s.len() > 0 && s.last() == 0 {
        trim_nuls(s.drop_last())
    } else {
        s
    }
}

/// The text that `String::from_utf8_lossy` makes of `bytes`: their UTF-8
/// decoding, with U+FFFD in place of each malformed stretch.
pub uninterp spec fn utf8_lossy(bytes: Seq<u8>) -> Seq<char>;

/// Whether every byte is an ASCII character.
pub open spec fn all_ascii(bytes: Seq<u8>) -> bool {
    forall|i: int| 0 <= i < bytes.len() ==> #[trigger] bytes[i] < 128
}

/// The characters that ASCII bytes stand for.
pub open spec fn ascii_text(bytes: Seq<u8>) -> Seq<char> {
    Seq::new(bytes.len(), |i: int| bytes[i] as char)
}

/// `String::from_utf8_lossy`, its result made an owned `String`. ASCII
/// bytes, which are well-formed UTF-8, decode to the characters they stand
/// for; what other input becomes is known only by the name `utf8_lossy`.
#[verifier::external_body]
pub(crate) fn lossy_text(bytes: &[u8]) -> (s: String)
    ensures
        s@ == utf8_lossy(bytes@),
        all_ascii(bytes@) ==> s@ == ascii_text(bytes@),
{
    String::from_utf8_lossy(bytes).into_owned()
}

/// Whether `text` is the text of the fixed-width name field `field`: the
/// field without its trailing zero bytes, decoded leniently. Where those
/// bytes are all ASCII, that is the characters they stand for.
pub open spec fn is_field_text(text: Seq<char>, field: Seq<u8>) -> bool {
    let trimmed = trim_nuls(field);
    &&& text == utf8_lossy(trimmed)
    &&& all_ascii(trimmed) ==> text == ascii_text(trimmed)
}

/// The text of a fixed-width name field.
pub(crate) fn field_text(field: &[u8]) -> (s: String)
    ensures
        is_field_text(s@, field@),
{
    let mut n = field.len();
    assert(field@.subrange(0, n as int) =~= field@);
    while n > 0 && field[n - 1] == 0
        invariant
            n <= field@.len(),
            trim_nuls(field@) == trim_nuls(field@.subrange(0, n as int)),
        decreases n,
    {
        assert(field@.subrange(0, n as int).drop_last() =~= field@.subrange(0, n - 1));
        n -= 1;
    }
    lossy_text(vstd::slice::slice_subrange(field, 0, n))
}

} // verus!
