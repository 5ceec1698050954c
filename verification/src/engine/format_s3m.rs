//! Scream Tracker 3 modules: the file's own structures, the decoder that
//! fills them from a byte image, and their canonical form.

use super::bytes::{
    array_at, field_text, fits, in_bounds, is_field_text, le_u16, le_u32, u16_at, u32_at, vec_at,
    zeros,
};
use super::error::{LoadError, Unsupported};
use super::module::{
    channel_count, clamped_loop_end, effective_loop, empty_column, held_instrument,
    hold_instrument, instruments_valid, lemma_channel_count_uniform, lettered_effect,
    lettered_effect_of, make_playlist, make_sample, rows_have_width, samples_wf, terminated,
    Column, LoopType, Module, ModuleInterface, Note, Pattern, PlaybackMode, Row, S3MOptions,
    Sample, VolEffect,
};
use super::pcm::{decode_pcm, pcm_frame, pcm_frames};
use vstd::prelude::*;

verus! {

/// Length of the fixed header that precedes the order list.
pub const S3M_HEADER_LEN: usize = 0x60;

/// Length of the part of a sample header that is read.
pub const S3M_SAMPLE_HEADER_LEN: usize = 0x4C;

/// The file as stored: header fields, the two offset tables, and what they
/// point to.
#[derive(Debug)]
pub struct S3MModule {
    pub song_name: [u8; 28],
    pub _unused: u32,
    pub order_amount: u16,
    pub sample_amount: u16,
    pub pattern_amount: u16,
    pub flags: u16,
    pub tracker_metadata: u16,
    pub ffi: u16,
    pub _scrm: u32,
    pub global_volume: u8,
    pub initial_speed: u8,
    pub initial_tempo: u8,
    pub mixing_volume: u8,
    pub ramping: u8,
    pub default_panning: u8,
    pub _unused2: [u8; 8],
    pub special: u16,
    pub channel_settings: [u8; 32],
    pub orders: Vec<u8>,
    pub sample_offsets: Vec<u16>,
    pub pattern_offsets: Vec<u16>,
    pub channel_panning: [u8; 32],
    pub samples: Vec<S3MSample>,
    pub patterns: Vec<S3MPattern>,
}

/// A sample as the file stores it: the header fields, and the audio decoded
/// to signed sixteen bits.
#[derive(Debug, Default)]
pub struct S3MSample {
    pub sample_type: u8,
    pub filename: [u8; 12],
    pub memseg: [u8; 3],
    pub length: u32,
    pub loop_begin: u32,
    pub loop_end: u32,
    pub volume: u8,
    pub _unused: u8,
    pub packed: u8,
    pub flags: u8,
    pub c4speed: u32,
    pub _unused2: u32,
    pub int_gp: u16,
    pub sample_name: [u8; 28],
    pub _scrs: [u8; 4],
    pub audio: Vec<i16>,
}

/// One cell as the file stores it: raw bytes, not yet given a meaning.
#[derive(Debug, Clone, Copy, PartialEq, Eq, Structural)]
pub struct S3MColumn {
    pub note: u8,
    pub instrument: u8,
    pub vol: u8,
    pub effect: u8,
    pub effect_value: u8,
}

/// The 32 cells of one row.
pub type S3MRow = [S3MColumn; 32];

/// The 64 rows of one pattern.
pub type S3MPattern = [S3MRow; 64];

/// The cell that says nothing: no note, no instrument, no volume, no effect.
pub open spec fn s3m_empty_column() -> S3MColumn {
    S3MColumn { note: 255, instrument: 0, vol: 255, effect: 0, effect_value: 0 }
}

impl Default for S3MColumn {
    fn default() -> (r: Self)
        ensures
            r == s3m_empty_column(),
    {
        S3MColumn { note: 255, instrument: 0, vol: 255, effect: 0, effect_value: 0 }
    }
}

/// The cells of a stored pattern, row by row.
pub open spec fn s3m_grid(p: S3MPattern) -> Seq<Seq<S3MColumn>> {
    Seq::new(64, |r: int| p@[r]@)
}

/// A pattern of empty cells.
pub open spec fn s3m_blank_grid() -> Seq<Seq<S3MColumn>> {
    Seq::new(64, |r: int| Seq::new(32, |c: int| s3m_empty_column()))
}

/// A pattern of empty cells.
fn blank_pattern() -> (p: S3MPattern)
    ensures
        s3m_grid(p) == s3m_blank_grid(),
{
    let p = [[S3MColumn::default(); 32]; 64];
    assert forall|r: int| 0 <= r < 64 implies (#[trigger] p@[r])@ =~= Seq::new(
        32,
        |c: int| s3m_empty_column(),
    ) by {}
    assert(s3m_grid(p) =~= s3m_blank_grid());
    p
}

// ---------------------------------------------------------------------------
// Samples
// ---------------------------------------------------------------------------

/// Sample flag: the sample loops.
pub const S3M_SAMPLE_LOOP: u8 = 0b1;

/// Sample flag: the data is sixteen bits wide.
pub const S3M_SAMPLE_WIDE: u8 = 0b100;

/// The value of the header's format field that marks signed sample data.
pub const S3M_FFI_SIGNED: u16 = 1;

/// Where the data of a sample lies, from the three bytes that the header
/// gives for it: the first byte is the most significant, then the third,
/// then the second, and the whole counts units of sixteen bytes.
pub open spec fn s3m_data_pointer(m0: u8, m1: u8, m2: u8) -> int {
    16 * (m1 as int) + 4096 * (m2 as int) + 1048576 * (m0 as int)
}

/// Why the sample whose header is at `o` cannot be decoded, if it cannot.
/// Offset 0 stands for a sample that the file leaves out, which is no error.
pub open spec fn s3m_sample_error(b: Seq<u8>, o: int) -> Option<LoadError> {
    if o == 0 {
        None
    } else if !fits(b, o, S3M_SAMPLE_HEADER_LEN as int) {
        Some(LoadError::Truncated)
    } else if b[o] > 1 {
        Some(LoadError::UnsupportedVariant(Unsupported::AdLib))
    } else if b[o + 0x1E] == 1 {
        Some(LoadError::UnsupportedVariant(Unsupported::CompressedSample))
    } else if b[o + 0x1F] & S3M_SAMPLE_WIDE != 0 && 2 * u32_at(b, o + 0x10) > u32::MAX {
        Some(LoadError::OutOfRange)
    } else {
        None
    }
}

impl S3MSample {
    /// Whether `self` is the sample left out of a file: every field zero and
    /// no audio.
    pub open spec fn is_silent(&self) -> bool {
        &&& self.sample_type == 0
        &&& self.filename@ == zeros(12)
        &&& self.memseg@ == zeros(3)
        &&& self.length == 0
        &&& self.loop_begin == 0
        &&& self.loop_end == 0
        &&& self.volume == 0
        &&& self._unused == 0
        &&& self.packed == 0
        &&& self.flags == 0
        &&& self.c4speed == 0
        &&& self._unused2 == 0
        &&& self.int_gp == 0
        &&& self.sample_name@ == zeros(28)
        &&& self._scrs@ == zeros(4)
        &&& self.audio@.len() == 0
    }

    /// Whether the header fields of `self` are those stored at `o`. The
    /// fields that the decoder passes over are zero.
    pub open spec fn header_from(&self, b: Seq<u8>, o: int) -> bool {
        &&& self.sample_type == b[o]
        &&& self.filename@ == b.subrange(o + 1, o + 13)
        &&& self.memseg@ == b.subrange(o + 13, o + 16)
        &&& self.length == u32_at(b, o + 0x10)
        &&& self.loop_begin == u32_at(b, o + 0x14)
        &&& self.loop_end == u32_at(b, o + 0x18)
        &&& self.volume == b[o + 0x1C]
        &&& self._unused == b[o + 0x1D]
        &&& self.packed == b[o + 0x1E]
        &&& self.flags == b[o + 0x1F]
        &&& self.c4speed == u32_at(b, o + 0x20)
        &&& self._unused2 == 0
        &&& self.int_gp == u16_at(b, o + 0x28)
        &&& self.sample_name@ == b.subrange(o + 0x30, o + 0x4C)
        &&& self._scrs@ == zeros(4)
    }

    /// Whether the audio of `self` is the data that its header points to:
    /// as many of its frames as the file holds, each converted to signed
    /// sixteen bits. `signed` says how the module stores its samples.
    pub open spec fn audio_from(&self, b: Seq<u8>, signed: bool) -> bool {
        let wide = self.flags & S3M_SAMPLE_WIDE != 0;
        let ptr = s3m_data_pointer(self.memseg@[0], self.memseg@[1], self.memseg@[2]);
        &&& self.audio@.len() == pcm_frames(b, ptr, self.length as int, wide)
        &&& forall|i: int|
            0 <= i < self.audio@.len() ==> (#[trigger] self.audio@[i]) == pcm_frame(
                b,
                ptr,
                i,
                wide,
                signed,
            )
    }

    /// Whether `self` is the sample whose header is stored at `o`.
    pub open spec fn decoded_from(&self, b: Seq<u8>, o: int, signed: bool) -> bool {
        if o == 0 {
            self.is_silent()
        } else {
            self.header_from(b, o) && self.audio_from(b, signed)
        }
    }
}

/// The sample that a file leaves out.
fn silent_sample() -> (r: S3MSample)
    ensures
        r.is_silent(),
{
    let r = S3MSample {
        sample_type: 0,
        filename: [0u8; 12],
        memseg: [0u8; 3],
        length: 0,
        loop_begin: 0,
        loop_end: 0,
        volume: 0,
        _unused: 0,
        packed: 0,
        flags: 0,
        c4speed: 0,
        _unused2: 0,
        int_gp: 0,
        sample_name: [0u8; 28],
        _scrs: [0u8; 4],
        audio: Vec::new(),
    };
    assert(r.filename@ =~= zeros(12));
    assert(r.memseg@ =~= zeros(3));
    assert(r.sample_name@ =~= zeros(28));
    assert(r._scrs@ =~= zeros(4));
    r
}

/// Reads the sample whose header is stored at `o`.
fn read_sample(b: &[u8], o: usize, signed: bool) -> (r: Result<S3MSample, LoadError>)
    ensures
        match r {
            Ok(s) => s3m_sample_error(b@, o as int) is None && s.decoded_from(
                b@,
                o as int,
                signed,
            ),
            Err(e) => s3m_sample_error(b@, o as int) == Some(e),
        },
{
    if o == 0 {
        return Ok(silent_sample());
    }
    if !in_bounds(b, o, S3M_SAMPLE_HEADER_LEN) {
        return Err(LoadError::Truncated);
    }
    let sample_type = b[o];
    if sample_type > 1 {
        return Err(LoadError::UnsupportedVariant(Unsupported::AdLib));
    }
    let packed = b[o + 0x1E];
    if packed == 1 {
        return Err(LoadError::UnsupportedVariant(Unsupported::CompressedSample));
    }
    let memseg = array_at::<3>(b, o + 13);
    let length = le_u32(b, o + 0x10);
    let flags = b[o + 0x1F];
    let wide = flags & S3M_SAMPLE_WIDE != 0;
    if wide && length > u32::MAX / 2 {
        return Err(LoadError::OutOfRange);
    }
    let pointer: u32 = 16 * (memseg[1] as u32) + 4096 * (memseg[2] as u32)
        + 1048576 * (memseg[0] as u32);
    let audio = decode_pcm(b, pointer as usize, length as usize, wide, signed);
    let r = S3MSample {
        sample_type,
        filename: array_at::<12>(b, o + 1),
        memseg,
        length,
        loop_begin: le_u32(b, o + 0x14),
        loop_end: le_u32(b, o + 0x18),
        volume: b[o + 0x1C],
        _unused: b[o + 0x1D],
        packed,
        flags,
        c4speed: le_u32(b, o + 0x20),
        _unused2: 0,
        int_gp: le_u16(b, o + 0x28),
        sample_name: array_at::<28>(b, o + 0x30),
        _scrs: [0u8; 4],
        audio,
    };
    assert(r._scrs@ =~= zeros(4));
    Ok(r)
}

// ---------------------------------------------------------------------------
// Packed pattern data
// ---------------------------------------------------------------------------

/// Unpacks the cell whose non-zero head byte is at `pos` onto `cell`: the
/// position after it and the cell as changed, or `None` where the data ends
/// inside it. Head bit 32 says that note and instrument follow, bit 64 that
/// a volume follows, bit 128 that effect and argument follow, in that order;
/// what does not follow keeps the value that `cell` has.
pub open spec fn s3m_unpack_cell(b: Seq<u8>, pos: int, cell: S3MColumn) -> Option<
    (int, S3MColumn),
> {
    let head = b[pos];
    let p_note = pos + 1;
    let p_vol = if head & 32 != 0 {
        p_note + 2
    } else {
        p_note
    };
    let p_fx = if head & 64 != 0 {
        p_vol + 1
    } else {
        p_vol
    };
    let p_end = if head & 128 != 0 {
        p_fx + 2
    } else {
        p_fx
    };
    if p_end > b.len() {
        None
    } else {
        Some(
            (
                p_end,
                S3MColumn {
                    note: if head & 32 != 0 {
                        b[p_note]
                    } else {
                        cell.note
                    },
                    instrument: if head & 32 != 0 {
                        b[p_note + 1]
                    } else {
                        cell.instrument
                    },
                    vol: if head & 64 != 0 {
                        b[p_vol]
                    } else {
                        cell.vol
                    },
                    effect: if head & 128 != 0 {
                        b[p_fx]
                    } else {
                        cell.effect
                    },
                    effect_value: if head & 128 != 0 {
                        b[p_fx + 1]
                    } else {
                        cell.effect_value
                    },
                },
            ),
        )
    }
}

/// The channel that a head byte addresses.
pub open spec fn s3m_channel_of(head: u8) -> int {
    head as int % 32
}

/// Runs the unpacker from `pos`, in row `row` of `grid`, until 64 rows are
/// done, and gives the grid; `None` where the data ends before that. A zero
/// byte ends the row.
pub open spec fn s3m_unpack(b: Seq<u8>, pos: int, row: int, grid: Seq<Seq<S3MColumn>>) -> Option<
    Seq<Seq<S3MColumn>>,
>
    decreases b.len() - pos,
{
    if row >= 64 {
        Some(grid)
    } else if pos < 0 || pos >= b.len() {
        None
    } else if b[pos] == 0 {
        s3m_unpack(b, pos + 1, row + 1, grid)
    } else {
        let ch = s3m_channel_of(b[pos]);
        match s3m_unpack_cell(b, pos, grid[row][ch]) {
            None => None,
            Some((p, cell)) => s3m_unpack(b, p, row, grid.update(row, grid[row].update(ch, cell))),
        }
    }
}

/// The cells of the pattern whose packed data starts at `at`, or `None`
/// where the file ends before its 64 rows do.
pub open spec fn s3m_pattern_grid(b: Seq<u8>, o: int) -> Option<Seq<Seq<S3MColumn>>> {
    if o == 0 {
        Some(s3m_blank_grid())
    } else {
        s3m_unpack(b, o + 2, 0, s3m_blank_grid())
    }
}

/// Unpacks the cell whose non-zero head byte is at `pos` into `p`.
fn unpack_cell(p: &mut S3MPattern, b: &[u8], pos: usize, row: usize) -> (r: Option<usize>)
    requires
        row < 64,
        pos < b@.len(),
        b@[pos as int] != 0,
    ensures
        match r {
            Some(next) => {
                &&& pos < next <= b@.len()
                &&& s3m_unpack_cell(
                    b@,
                    pos as int,
                    s3m_grid(*old(p))[row as int][s3m_channel_of(b@[pos as int])],
                ) matches Some((q, cell))
                &&& q == next
                &&& s3m_grid(*final(p)) == s3m_grid(*old(p)).update(
                    row as int,
                    s3m_grid(*old(p))[row as int].update(s3m_channel_of(b@[pos as int]), cell),
                )
            },
            None => s3m_unpack_cell(
                b@,
                pos as int,
                s3m_grid(*old(p))[row as int][s3m_channel_of(b@[pos as int])],
            ) is None,
        },
{
    let len = b.len();
    let head = b[pos];
    let ch = (head % 32) as usize;
    let has_note = head & 32 != 0;
    let has_vol = head & 64 != 0;
    let has_fx = head & 128 != 0;
    let p_note = pos + 1;
    let need: usize = (if has_note {
        2usize
    } else {
        0
    }) + (if has_vol {
        1
    } else {
        0
    }) + (if has_fx {
        2
    } else {
        0
    });
    if need > len - p_note {
        return None;
    }
    let p_vol = if has_note {
        p_note + 2
    } else {
        p_note
    };
    let p_fx = if has_vol {
        p_vol + 1
    } else {
        p_vol
    };
    let p_end = if has_fx {
        p_fx + 2
    } else {
        p_fx
    };
    let mut cell = p[row][ch];
    if has_note {
        cell.note = b[p_note];
        cell.instrument = b[p_note + 1];
    }
    if has_vol {
        cell.vol = b[p_vol];
    }
    if has_fx {
        cell.effect = b[p_fx];
        cell.effect_value = b[p_fx + 1];
    }
    p[row][ch] = cell;
    assert(s3m_grid(*p) =~~= s3m_grid(*old(p)).update(
        row as int,
        s3m_grid(*old(p))[row as int].update(ch as int, cell),
    ));
    Some(p_end)
}

/// Reads the pattern whose block starts at `o`, or reports that the file
/// ends inside it.
fn read_pattern(b: &[u8], o: usize) -> (r: Option<S3MPattern>)
    ensures
        r is Some <==> s3m_pattern_grid(b@, o as int) is Some,
        r matches Some(p) ==> Some(s3m_grid(p)) == s3m_pattern_grid(b@, o as int),
{
    let mut pattern = blank_pattern();
    if o == 0 {
        return Some(pattern);
    }
    let len = b.len();
    if len < 2 || o > len - 2 {
        return None;
    }
    let mut pos: usize = o + 2;
    let mut row: usize = 0;
    while row < 64
        invariant
            b@.len() == len,
            pos <= len,
            row <= 64,
            o != 0,
            s3m_pattern_grid(b@, o as int) == s3m_unpack(
                b@,
                pos as int,
                row as int,
                s3m_grid(pattern),
            ),
        decreases len - pos,
    {
        if pos >= len {
            return None;
        }
        if b[pos] == 0 {
            row += 1;
            pos += 1;
        } else {
            match unpack_cell(&mut pattern, b, pos, row) {
                Some(next) => {
                    pos = next;
                },
                None => {
                    return None;
                },
            }
        }
    }
    Some(pattern)
}

// ---------------------------------------------------------------------------
// The file as a whole
// ---------------------------------------------------------------------------

/// Whether the header carries "SCRM" at its place.
pub open spec fn s3m_magic(b: Seq<u8>) -> bool {
    b[0x2C] == 0x53 && b[0x2D] == 0x43 && b[0x2E] == 0x52 && b[0x2F] == 0x4D
}

/// Number of orders that the header declares.
pub open spec fn s3m_order_amount(b: Seq<u8>) -> int {
    u16_at(b, 0x20)
}

/// Number of samples that the header declares.
pub open spec fn s3m_sample_amount(b: Seq<u8>) -> int {
    u16_at(b, 0x22)
}

/// Number of patterns that the header declares.
pub open spec fn s3m_pattern_amount(b: Seq<u8>) -> int {
    u16_at(b, 0x24)
}

/// Where the table of sample offsets starts: after the order list.
pub open spec fn s3m_sample_table(b: Seq<u8>) -> int {
    S3M_HEADER_LEN + s3m_order_amount(b)
}

/// Where the table of pattern offsets starts.
pub open spec fn s3m_pattern_table(b: Seq<u8>) -> int {
    s3m_sample_table(b) + 2 * s3m_sample_amount(b)
}

/// Where the two tables end and the channel pannings start.
pub open spec fn s3m_tables_end(b: Seq<u8>) -> int {
    s3m_pattern_table(b) + 2 * s3m_pattern_amount(b)
}

/// Byte offset of the header of sample `i`: sixteen times what the table
/// holds.
pub open spec fn s3m_sample_offset(b: Seq<u8>, i: int) -> int {
    16 * u16_at(b, s3m_sample_table(b) + 2 * i)
}

/// Byte offset of the block of pattern `i`: sixteen times what the table
/// holds.
pub open spec fn s3m_pattern_offset(b: Seq<u8>, i: int) -> int {
    16 * u16_at(b, s3m_pattern_table(b) + 2 * i)
}

/// Whether the module stores its samples signed.
pub open spec fn s3m_signed(b: Seq<u8>) -> bool {
    u16_at(b, 0x2A) == S3M_FFI_SIGNED
}

/// Why the header, the order list or the offset tables cannot be read, if
/// they cannot.
pub open spec fn s3m_header_error(b: Seq<u8>) -> Option<LoadError> {
    if b.len() < 0x30 {
        Some(LoadError::Truncated)
    } else if !s3m_magic(b) {
        Some(LoadError::InvalidSignature)
    } else if b.len() < S3M_HEADER_LEN || b.len() < s3m_tables_end(b) {
        Some(LoadError::Truncated)
    } else {
        None
    }
}

/// The error of the first sample from number `i` on that has one.
pub open spec fn s3m_samples_error(b: Seq<u8>, i: int) -> Option<LoadError>
    decreases s3m_sample_amount(b) - i,
{
    if i < 0 || i >= s3m_sample_amount(b) {
        None
    } else {
        match s3m_sample_error(b, s3m_sample_offset(b, i)) {
            Some(e) => Some(e),
            None => s3m_samples_error(b, i + 1),
        }
    }
}

/// Whether the file ends inside the packed data of some pattern.
pub open spec fn s3m_patterns_truncated(b: Seq<u8>) -> bool {
    exists|i: int|
        0 <= i < s3m_pattern_amount(b) && (#[trigger] s3m_pattern_grid(
            b,
            s3m_pattern_offset(b, i),
        )) is None
}

/// Why `b` is not a decodable module, if it is not. The file is read in the
/// order header, samples, patterns, and the first error met decides.
pub open spec fn s3m_error(b: Seq<u8>) -> Option<LoadError> {
    if s3m_header_error(b) is Some {
        s3m_header_error(b)
    } else if s3m_samples_error(b, 0) is Some {
        s3m_samples_error(b, 0)
    } else if s3m_patterns_truncated(b) {
        Some(LoadError::Truncated)
    } else {
        None
    }
}

/// Byte `i` of the region starting at `at`, or zero past the end of the file.
pub open spec fn padded_byte(b: Seq<u8>, at: int, i: int) -> u8 {
    if at + i < b.len() {
        b[at + i]
    } else {
        0
    }
}

impl S3MModule {
    /// Whether the header fields, the order list and the offset tables of
    /// `self` are those stored in `b`. The channel pannings, which a file
    /// may leave out, read as zero past its end.
    pub open spec fn header_from(&self, b: Seq<u8>) -> bool {
        &&& self.song_name@ == b.subrange(0, 28)
        &&& self._unused == u32_at(b, 0x1C)
        &&& self.order_amount == s3m_order_amount(b)
        &&& self.sample_amount == s3m_sample_amount(b)
        &&& self.pattern_amount == s3m_pattern_amount(b)
        &&& self.flags == u16_at(b, 0x26)
        &&& self.tracker_metadata == u16_at(b, 0x28)
        &&& self.ffi == u16_at(b, 0x2A)
        &&& self._scrm == u32_at(b, 0x2C)
        &&& self.global_volume == b[0x30]
        &&& self.initial_speed == b[0x31]
        &&& self.initial_tempo == b[0x32]
        &&& self.mixing_volume == b[0x33]
        &&& self.ramping == b[0x34]
        &&& self.default_panning == b[0x35]
        &&& self._unused2@ == b.subrange(0x36, 0x3E)
        &&& self.special == u16_at(b, 0x3E)
        &&& self.channel_settings@ == b.subrange(0x40, 0x60)
        &&& self.orders@ == b.subrange(S3M_HEADER_LEN as int, s3m_sample_table(b))
        &&& self.sample_offsets@.len() == s3m_sample_amount(b)
        &&& forall|i: int|
            0 <= i < s3m_sample_amount(b) ==> 16 * (#[trigger] self.sample_offsets@[i])
                == s3m_sample_offset(b, i)
        &&& self.pattern_offsets@.len() == s3m_pattern_amount(b)
        &&& forall|i: int|
            0 <= i < s3m_pattern_amount(b) ==> 16 * (#[trigger] self.pattern_offsets@[i])
                == s3m_pattern_offset(b, i)
        &&& forall|i: int|
            0 <= i < 32 ==> (#[trigger] self.channel_panning@[i]) == padded_byte(
                b,
                s3m_tables_end(b),
                i,
            )
    }

    /// Whether `self` is the module stored in `b`: the header, and every
    /// sample and pattern that the offset tables point to.
    pub open spec fn decoded_from(&self, b: Seq<u8>) -> bool {
        &&& self.header_from(b)
        &&& self.samples@.len() == s3m_sample_amount(b)
        &&& forall|i: int|
            0 <= i < s3m_sample_amount(b) ==> (#[trigger] self.samples@[i]).decoded_from(
                b,
                s3m_sample_offset(b, i),
                s3m_signed(b),
            )
        &&& self.patterns@.len() == s3m_pattern_amount(b)
        &&& forall|i: int|
            0 <= i < s3m_pattern_amount(b) ==> Some(s3m_grid(#[trigger] self.patterns@[i]))
                == s3m_pattern_grid(b, s3m_pattern_offset(b, i))
    }
}

/// Reads `n` 16-bit offsets stored from `at` on.
fn read_offsets(b: &[u8], at: usize, n: usize) -> (r: Vec<u16>)
    requires
        fits(b@, at as int, 2 * n),
    ensures
        r@.len() == n,
        forall|i: int| 0 <= i < n ==> (#[trigger] r@[i]) == u16_at(b@, at + 2 * i),
{
    let len = b.len();
    let mut r: Vec<u16> = Vec::new();
    let mut i: usize = 0;
    while i < n
        invariant
            i <= n,
            b@.len() == len,
            fits(b@, at as int, 2 * n),
            r@.len() == i,
            forall|j: int| 0 <= j < i ==> (#[trigger] r@[j]) == u16_at(b@, at + 2 * j),
        decreases n - i,
    {
        r.push(le_u16(b, at + 2 * i));
        i += 1;
    }
    r
}

/// Reads the 32 bytes stored from `at` on, with zero for what lies past the
/// end of the file.
fn read_padded(b: &[u8], at: usize) -> (r: [u8; 32])
    ensures
        forall|i: int| 0 <= i < 32 ==> (#[trigger] r@[i]) == padded_byte(b@, at as int, i),
{
    let len = b.len();
    let mut r = [0u8; 32];
    let mut i: usize = 0;
    while i < 32
        invariant
            i <= 32,
            b@.len() == len,
            forall|j: int| 0 <= j < i ==> (#[trigger] r@[j]) == padded_byte(b@, at as int, j),
        decreases 32 - i,
    {
        if at < len && i < len - at {
            r[i] = b[at + i];
        } else {
            r[i] = 0;
        }
        i += 1;
    }
    r
}

impl S3MModule {
    /// Whether every field is zero and every list empty.
    pub open spec fn is_blank(&self) -> bool {
        &&& self.song_name@ == zeros(28)
        &&& self._unused == 0
        &&& self.order_amount == 0
        &&& self.sample_amount == 0
        &&& self.pattern_amount == 0
        &&& self.flags == 0
        &&& self.tracker_metadata == 0
        &&& self.ffi == 0
        &&& self._scrm == 0
        &&& self.global_volume == 0
        &&& self.initial_speed == 0
        &&& self.initial_tempo == 0
        &&& self.mixing_volume == 0
        &&& self.ramping == 0
        &&& self.default_panning == 0
        &&& self._unused2@ == zeros(8)
        &&& self.special == 0
        &&& self.channel_settings@ == zeros(32)
        &&& self.orders@.len() == 0
        &&& self.sample_offsets@.len() == 0
        &&& self.pattern_offsets@.len() == 0
        &&& self.channel_panning@ == zeros(32)
        &&& self.samples@.len() == 0
        &&& self.patterns@.len() == 0
    }
}

impl Default for S3MModule {
    fn default() -> (r: Self)
        ensures
            r.is_blank(),
    {
        let r = S3MModule {
            song_name: [0; 28],
            _unused: 0,
            order_amount: 0,
            sample_amount: 0,
            pattern_amount: 0,
            flags: 0,
            tracker_metadata: 0,
            ffi: 0,
            _scrm: 0,
            global_volume: 0,
            initial_speed: 0,
            initial_tempo: 0,
            mixing_volume: 0,
            ramping: 0,
            default_panning: 0,
            _unused2: [0; 8],
            special: 0,
            channel_settings: [0; 32],
            orders: Vec::new(),
            sample_offsets: Vec::new(),
            pattern_offsets: Vec::new(),
            channel_panning: [0; 32],
            samples: Vec::new(),
            patterns: Vec::new(),
        };
        assert(r.song_name@ =~= zeros(28));
        assert(r._unused2@ =~= zeros(8));
        assert(r.channel_settings@ =~= zeros(32));
        assert(r.channel_panning@ =~= zeros(32));
        r
    }
}

/// Reads the header, the order list and the two offset tables.
fn read_header(b: &[u8]) -> (r: Result<S3MModule, LoadError>)
    ensures
        match r {
            Ok(m) => {
                &&& s3m_header_error(b@) is None
                &&& m.header_from(b@)
                &&& m.samples@.len() == 0
                &&& m.patterns@.len() == 0
            },
            Err(e) => s3m_header_error(b@) == Some(e),
        },
{
    if !in_bounds(b, 0, 0x30) {
        return Err(LoadError::Truncated);
    }
    if !(b[0x2C] == 0x53 && b[0x2D] == 0x43 && b[0x2E] == 0x52 && b[0x2F] == 0x4D) {
        return Err(LoadError::InvalidSignature);
    }
    if !in_bounds(b, 0, S3M_HEADER_LEN) {
        return Err(LoadError::Truncated);
    }
    let order_amount = le_u16(b, 0x20);
    let sample_amount = le_u16(b, 0x22);
    let pattern_amount = le_u16(b, 0x24);
    let sample_table = S3M_HEADER_LEN + order_amount as usize;
    let pattern_table = sample_table + 2 * sample_amount as usize;
    let tables_end = pattern_table + 2 * pattern_amount as usize;
    if !in_bounds(b, 0, tables_end) {
        return Err(LoadError::Truncated);
    }
    Ok(
        S3MModule {
            song_name: array_at::<28>(b, 0),
            _unused: le_u32(b, 0x1C),
            order_amount,
            sample_amount,
            pattern_amount,
            flags: le_u16(b, 0x26),
            tracker_metadata: le_u16(b, 0x28),
            ffi: le_u16(b, 0x2A),
            _scrm: le_u32(b, 0x2C),
            global_volume: b[0x30],
            initial_speed: b[0x31],
            initial_tempo: b[0x32],
            mixing_volume: b[0x33],
            ramping: b[0x34],
            default_panning: b[0x35],
            _unused2: array_at::<8>(b, 0x36),
            special: le_u16(b, 0x3E),
            channel_settings: array_at::<32>(b, 0x40),
            orders: vec_at(b, S3M_HEADER_LEN, order_amount as usize),
            sample_offsets: read_offsets(b, sample_table, sample_amount as usize),
            pattern_offsets: read_offsets(b, pattern_table, pattern_amount as usize),
            channel_panning: read_padded(b, tables_end),
            samples: Vec::new(),
            patterns: Vec::new(),
        },
    )
}

impl S3MModule {
    /// Decodes a Scream Tracker 3 module from the bytes of its file.
    ///
    /// Succeeds exactly when `s3m_error` finds nothing wrong, and then every
    /// field of the result is the one stored in the file. Sample data that
    /// runs past the end of the file yields a shorter sample, not an error.
    pub fn load(bytes: &[u8]) -> (r: Result<S3MModule, LoadError>)
        ensures
            match r {
                Ok(m) => s3m_error(bytes@) is None && m.decoded_from(bytes@),
                Err(e) => s3m_error(bytes@) == Some(e),
            },
    {
        let mut module = match read_header(bytes) {
            Ok(m) => m,
            Err(e) => { return Err(e); },
        };
        let ghost b = bytes@;
        let signed = module.ffi == S3M_FFI_SIGNED;

        let mut samples: Vec<S3MSample> = Vec::new();
        let mut i: usize = 0;
        while i < module.sample_offsets.len()
            invariant
                b == bytes@,
                s3m_header_error(b) is None,
                module.header_from(b),
                signed == s3m_signed(b),
                i <= module.sample_offsets@.len(),
                samples@.len() == i,
                s3m_samples_error(b, 0) == s3m_samples_error(b, i as int),
                forall|j: int|
                    0 <= j < i ==> (#[trigger] samples@[j]).decoded_from(
                        b,
                        s3m_sample_offset(b, j),
                        signed,
                    ),
            decreases module.sample_offsets@.len() - i,
        {
            let o = (module.sample_offsets[i] as usize) * 16;
            match read_sample(bytes, o, signed) {
                Ok(smp) => samples.push(smp),
                Err(e) => {
                    return Err(e);
                },
            }
            i += 1;
        }

        let mut patterns: Vec<S3MPattern> = Vec::new();
        let mut i: usize = 0;
        while i < module.pattern_offsets.len()
            invariant
                b == bytes@,
                s3m_header_error(b) is None,
                s3m_samples_error(b, 0) is None,
                module.header_from(b),
                i <= module.pattern_offsets@.len(),
                patterns@.len() == i,
                forall|j: int|
                    0 <= j < i ==> (#[trigger] s3m_pattern_grid(b, s3m_pattern_offset(b, j)))
                        is Some,
                forall|j: int|
                    0 <= j < i ==> Some(s3m_grid(#[trigger] patterns@[j])) == s3m_pattern_grid(
                        b,
                        s3m_pattern_offset(b, j),
                    ),
            decreases module.pattern_offsets@.len() - i,
        {
            let o = (module.pattern_offsets[i] as usize) * 16;
            match read_pattern(bytes, o) {
                Some(pat) => patterns.push(pat),
                None => {
                    assert(s3m_pattern_grid(b, s3m_pattern_offset(b, i as int)) is None);
                    return Err(LoadError::Truncated);
                },
            }
            i += 1;
        }
        assert(!s3m_patterns_truncated(b));

        module.samples = samples;
        module.patterns = patterns;
        Ok(module)
    }
}

// ---------------------------------------------------------------------------
// Canonical form
// ---------------------------------------------------------------------------

/// Header flag: volume slides also act on the first tick of a row.
pub const S3M_FLAG_FAST_SLIDES: u16 = 0x40;

/// The tracker field of Scream Tracker 3.00, whose volume slides are fast.
pub const S3M_TRACKER_ST3_00: u16 = 0x1300;

/// The mixing volume of a module written for a Gravis Ultrasound.
pub const S3M_GUS_MIXING_VOLUME: u8 = 48;

/// Whether the tracker field names Impulse Tracker: its top digit is 3.
pub open spec fn s3m_made_by_impulse_tracker(tracker_metadata: u16) -> bool {
    tracker_metadata / 4096 == 3
}

/// Whether a sample, being digital, carries a Gravis parameter that is set.
pub open spec fn s3m_has_gravis_parameter(s: S3MSample) -> bool {
    s.sample_type < 2 && s.int_gp != 0
}

/// Whether some sample among the first `n` carries a Gravis parameter.
pub open spec fn s3m_any_gravis_parameter(samples: Seq<S3MSample>, n: int) -> bool {
    exists|i: int| 0 <= i < n && s3m_has_gravis_parameter(#[trigger] samples[i])
}

/// Whether a channel with this setting byte plays digital samples and is
/// switched on: the byte's low seven bits name one of the 16 digital
/// channels and its top bit is clear.
pub open spec fn s3m_channel_enabled(setting: u8) -> bool {
    setting < 16
}

/// The meaning of a stored note byte: 255 is no note, 254 cuts, anything
/// else holds the octave in its high and the pitch in its low digit.
pub open spec fn s3m_note(n: u8) -> Note {
    if n == 255 {
        Note::Empty
    } else if n == 254 {
        Note::Cut
    } else {
        Note::On(((n / 16) * 12 + n % 16 + 12) as u8)
    }
}

/// The meaning of a stored volume byte.
pub open spec fn s3m_volume(v: u8) -> VolEffect {
    if v <= 64 {
        VolEffect::Volume(v)
    } else if 128 <= v <= 192 {
        VolEffect::SetPan((v - 128) as u8)
    } else {
        VolEffect::Empty
    }
}

/// The meaning of a stored cell in a module of `samples` samples.
pub open spec fn s3m_column(c: S3MColumn, samples: nat) -> Column {
    Column {
        note: s3m_note(c.note),
        instrument: held_instrument(s3m_note(c.note), c.instrument, samples),
        vol: s3m_volume(c.vol),
        effect: lettered_effect(c.effect, c.effect_value, false),
    }
}

/// The canonical cell of a channel with setting byte `setting`: the
/// meaning of its stored cell where the channel is enabled, the empty cell
/// where it is not.
pub open spec fn s3m_cell(c: S3MColumn, setting: u8, samples: nat) -> Column {
    if s3m_channel_enabled(setting) {
        s3m_column(c, samples)
    } else {
        empty_column()
    }
}

impl S3MSample {
    /// Whether `s` is this sample in canonical form: the loop held inside
    /// the audio, and switched off where nothing of it is left.
    pub open spec fn canonical(&self, s: Sample) -> bool {
        &&& s.base_frequency == self.c4speed
        &&& s.loop_type == effective_loop(
            if self.flags & S3M_SAMPLE_LOOP != 0 {
                LoopType::Forward
            } else {
                LoopType::Off
            },
            self.loop_begin,
            self.loop_end,
            self.audio@.len(),
        )
        &&& s.loop_start == self.loop_begin
        &&& s.loop_end == clamped_loop_end(self.loop_end, self.audio@.len())
        &&& s.default_volume == self.volume
        &&& s.global_volume == 64
        &&& s.audio@ == self.audio@
    }
}

/// Whether `p` is the stored pattern `raw` in canonical form in a module
/// of `samples` samples: 64 rows of 32 cells, one for each channel. The
/// channels that are disabled or play no digital samples have empty cells.
pub open spec fn s3m_canonical(raw: S3MPattern, settings: Seq<u8>, samples: nat, p: Pattern) -> bool {
    &&& p@.len() == 64
    &&& forall|r: int| 0 <= r < 64 ==> (#[trigger] p@[r])@.len() == 32
    &&& forall|r: int, c: int|
        0 <= r < 64 && 0 <= c < 32 ==> (#[trigger] p@[r]@[c]) == s3m_cell(
            raw@[r]@[c],
            settings[c],
            samples,
        )
}

/// Gives a stored cell its meaning.
fn convert_column(c: &S3MColumn, samples: usize) -> (r: Column)
    ensures
        r == s3m_column(*c, samples as nat),
{
    let note = if c.note == 255 {
        Note::Empty
    } else if c.note == 254 {
        Note::Cut
    } else {
        Note::On((c.note / 16) * 12 + c.note % 16 + 12)
    };
    let vol = if c.vol <= 64 {
        VolEffect::Volume(c.vol)
    } else if 128 <= c.vol && c.vol <= 192 {
        VolEffect::SetPan(c.vol - 128)
    } else {
        VolEffect::Empty
    };
    Column {
        note,
        instrument: hold_instrument(note, c.instrument, samples),
        vol,
        effect: lettered_effect_of(c.effect, c.effect_value, false),
    }
}

/// Gives each cell of a stored row its meaning, and the channels that are
/// not enabled the empty cell.
fn convert_row(row: &S3MRow, settings: &[u8; 32], samples: usize) -> (r: Row)
    ensures
        r@.len() == 32,
        forall|c: int|
            0 <= c < 32 ==> (#[trigger] r@[c]) == s3m_cell(row@[c], settings@[c], samples as nat),
{
    let mut r: Row = Vec::with_capacity(32);
    let mut c: usize = 0;
    while c < 32
        invariant
            c <= 32,
            r@.len() == c,
            forall|k: int|
                0 <= k < c ==> (#[trigger] r@[k]) == s3m_cell(
                    row@[k],
                    settings@[k],
                    samples as nat,
                ),
        decreases 32 - c,
    {
        if settings[c] < 16 {
            r.push(convert_column(&row[c], samples));
        } else {
            r.push(Column::default());
        }
        c += 1;
    }
    r
}

/// Gives a stored pattern its canonical form.
fn convert_pattern(p: &S3MPattern, settings: &[u8; 32], samples: usize) -> (r: Pattern)
    ensures
        s3m_canonical(*p, settings@, samples as nat, r),
{
    let mut r: Pattern = Vec::with_capacity(64);
    let mut i: usize = 0;
    while i < 64
        invariant
            i <= 64,
            r@.len() == i,
            forall|k: int| 0 <= k < i ==> (#[trigger] r@[k])@.len() == 32,
            forall|k: int, c: int|
                0 <= k < i && 0 <= c < 32 ==> (#[trigger] r@[k]@[c]) == s3m_cell(
                    p@[k]@[c],
                    settings@[c],
                    samples as nat,
                ),
        decreases 64 - i,
    {
        r.push(convert_row(&p[i], settings, samples));
        i += 1;
    }
    r
}

impl S3MModule {
    /// Whether the module counts as written for a Gravis Ultrasound: no
    /// digital sample carries a Gravis parameter, and the tracker field does
    /// not name Impulse Tracker.
    pub fn is_gus(&self) -> (r: bool)
        ensures
            r == self.spec_is_gus(),
    {
        let mut any = false;
        let mut i: usize = 0;
        while i < self.samples.len()
            invariant
                i <= self.samples@.len(),
                any == s3m_any_gravis_parameter(self.samples@, i as int),
            decreases self.samples@.len() - i,
        {
            let s = &self.samples[i];
            if s.sample_type < 2 && s.int_gp != 0 {
                any = true;
            }
            i += 1;
        }
        !any && self.tracker_metadata / 4096 != 3
    }

    /// What `is_gus` computes.
    pub open spec fn spec_is_gus(&self) -> bool {
        &&& !s3m_any_gravis_parameter(self.samples@, self.samples@.len() as int)
        &&& !s3m_made_by_impulse_tracker(self.tracker_metadata)
    }

    /// Whether volume slides are fast: the file was written by Scream
    /// Tracker 3.00 or asks for it by flag.
    pub open spec fn fast_volume_slides(&self) -> bool {
        self.tracker_metadata == S3M_TRACKER_ST3_00 || self.flags & S3M_FLAG_FAST_SLIDES != 0
    }

    /// Whether `m` is this module in canonical form. The playlist is the
    /// order list, made to end in the end-of-song marker; the name is the
    /// name field without its trailing zero bytes; a Gravis module mixes at
    /// volume 48, any other at the low seven bits of its own setting.
    pub open spec fn canonical(&self, m: Module) -> bool {
        &&& is_field_text(m.name@, self.song_name@)
        &&& m.mode == PlaybackMode::S3M(S3MOptions { gus: self.spec_is_gus() })
        &&& !m.linear_freq_slides
        &&& m.fast_volume_slides == self.fast_volume_slides()
        &&& m.initial_tempo == self.initial_tempo
        &&& m.initial_speed == self.initial_speed
        &&& m.initial_global_volume == 64
        &&& m.mixing_volume == if self.spec_is_gus() {
            S3M_GUS_MIXING_VOLUME
        } else {
            (self.mixing_volume % 128) as u8
        }
        &&& m.samples@.len() == self.samples@.len()
        &&& forall|i: int|
            0 <= i < m.samples@.len() ==> (#[trigger] self.samples@[i]).canonical(m.samples@[i])
        &&& m.patterns@.len() == self.patterns@.len()
        &&& forall|i: int|
            0 <= i < m.patterns@.len() ==> s3m_canonical(
                #[trigger] self.patterns@[i],
                self.channel_settings@,
                self.samples@.len(),
                m.patterns@[i],
            )
        &&& m.playlist@ == terminated(self.orders@)
    }
}

impl ModuleInterface for S3MModule {
    /// Every sample in canonical form, in file order.
    fn samples(&self) -> (r: Vec<Sample>)
        ensures
            r@.len() == self.samples@.len(),
            forall|i: int| 0 <= i < r@.len() ==> (#[trigger] self.samples@[i]).canonical(r@[i]),
    {
        let mut r: Vec<Sample> = Vec::with_capacity(self.samples.len());
        let mut i: usize = 0;
        while i < self.samples.len()
            invariant
                i <= self.samples@.len(),
                r@.len() == i,
                samples_wf(r@),
                forall|k: int| 0 <= k < i ==> (#[trigger] self.samples@[k]).canonical(r@[k]),
            decreases self.samples@.len() - i,
        {
            let s = &self.samples[i];
            let kind = if s.flags & S3M_SAMPLE_LOOP != 0 {
                LoopType::Forward
            } else {
                LoopType::Off
            };
            r.push(
                make_sample(s.c4speed, kind, s.loop_begin, s.loop_end, s.volume, 64, s.audio.clone()),
            );
            i += 1;
        }
        r
    }

    /// Every pattern in canonical form, in file order: 64 rows of 32 cells
    /// each.
    fn patterns(&self) -> (r: Vec<Pattern>)
        ensures
            r@.len() == self.patterns@.len(),
            instruments_valid(r@, self.samples@.len()),
            forall|i: int|
                0 <= i < r@.len() ==> s3m_canonical(
                    #[trigger] self.patterns@[i],
                    self.channel_settings@,
                    self.samples@.len(),
                    r@[i],
                ),
    {
        let samples = self.samples.len();
        let mut r: Vec<Pattern> = Vec::with_capacity(self.patterns.len());
        let mut i: usize = 0;
        while i < self.patterns.len()
            invariant
                i <= self.patterns@.len(),
                r@.len() == i,
                samples == self.samples@.len(),
                instruments_valid(r@, samples as nat),
                forall|k: int|
                    0 <= k < i ==> s3m_canonical(
                        #[trigger] self.patterns@[k],
                        self.channel_settings@,
                        samples as nat,
                        r@[k],
                    ),
            decreases self.patterns@.len() - i,
        {
            let ghost before = r@;
            r.push(convert_pattern(&self.patterns[i], &self.channel_settings, samples));
            assert forall|p: int, w: int, c: int|
                0 <= p < r@.len() && 0 <= w < r@[p]@.len() && 0 <= c < r@[p]@[w]@.len() && (
                #[trigger] r@[p]@[w]@[c]).note is On implies r@[p]@[w]@[c].instrument
                <= samples by {
                if p < i {
                    assert(r@[p] == before[p]);
                }
            }
            i += 1;
        }
        r
    }

    /// The song in canonical form.
    fn module(&self) -> (m: Module)
        ensures
            self.canonical(m),
    {
        let gus = self.is_gus();
        Module {
            name: field_text(self.song_name.as_slice()),
            mode: PlaybackMode::S3M(S3MOptions { gus }),
            linear_freq_slides: false,
            fast_volume_slides: self.tracker_metadata == S3M_TRACKER_ST3_00 || self.flags
                & S3M_FLAG_FAST_SLIDES != 0,
            initial_tempo: self.initial_tempo,
            initial_speed: self.initial_speed,
            initial_global_volume: 64,
            mixing_volume: if gus {
                S3M_GUS_MIXING_VOLUME
            } else {
                self.mixing_volume % 128
            },
            samples: self.samples(),
            patterns: self.patterns(),
            playlist: make_playlist(&self.orders),
        }
    }
}

/// Every pattern in canonical form has 32 channels: each of its rows has
/// 32 cells.
pub proof fn lemma_s3m_channel_count(
    raw: S3MPattern,
    settings: Seq<u8>,
    samples: nat,
    p: Pattern,
)
    requires
        s3m_canonical(raw, settings, samples, p),
    ensures
        rows_have_width(p@, 32),
        channel_count(p@) == 32,
{
    lemma_channel_count_uniform(p@, 32);
}

} // verus!
