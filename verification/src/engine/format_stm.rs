//! Scream Tracker 2 modules: the file's own structures, the decoder that
//! fills them from a byte image, and their canonical form.

use super::bytes::{array_at, field_text, in_bounds, is_field_text, le_u16, u16_at, zeros};
use super::error::{LoadError, Unsupported};
use super::module::{
    channel_count, clamped_loop_end, effective_loop, held_instrument, hold_instrument,
    instruments_valid, lemma_channel_count_uniform, make_sample,
    playlist_terminated, rows_have_width, samples_wf, Column, Effect, LoopType, Module,
    ModuleInterface, Note, Pattern, PlaybackMode, Row, S3MOptions, Sample, VolEffect, ORDER_END,
};
use super::pcm::{decode_pcm_padded, pcm_frame_padded};
use vstd::prelude::*;

verus! {

/// Length of the fixed header.
pub const STM_HEADER_LEN: usize = 0x30;

/// Number of sample descriptors, each of 32 bytes, that follow the header.
pub const STM_SAMPLES: usize = 31;

/// Where the 128 order bytes lie.
pub const STM_ORDERS_AT: usize = 0x410;

/// Where the pattern data starts.
pub const STM_PATTERNS_AT: usize = 0x490;

/// The tempo byte taken where the file's own is zero.
pub const STM_DEFAULT_TEMPO: u8 = 0x60;

/// The first minor version that stores tempo bytes in their final form.
pub const STM_FIRST_MODERN_MINOR: u8 = 21;

/// A tempo or speed byte of an early file in the form that later files
/// store: the tens of its value in the high digit and the ones in the low,
/// the high digit kept to four bits.
pub open spec fn early_tempo(tempo: u8) -> u8 {
    (((tempo / 10) % 16) * 16 + tempo % 10) as u8
}

/// Computes `early_tempo`.
pub fn translate_early_tempo(tempo: u8) -> (r: u8)
    ensures
        r == early_tempo(tempo),
{
    ((tempo / 10) % 16) * 16 + tempo % 10
}

/// The file as stored: header fields, the 31 samples, the orders and the
/// patterns.
#[derive(Debug)]
pub struct STMModule {
    pub song_name: [u8; 20],
    pub tracker_name: [u8; 8],
    pub dos_eof: u8,
    pub file_type: u8,
    pub version_major: u8,
    pub version_minor: u8,
    pub initial_tempo: u8,
    pub pattern_amount: u8,
    pub global_volume: u8,
    pub orders: Vec<u8>,
    pub samples: Vec<STMSample>,
    pub patterns: Vec<STMPattern>,
}

/// A sample as the file stores it: the descriptor fields, and the audio
/// decoded to signed sixteen bits.
#[derive(Debug, Default)]
pub struct STMSample {
    pub filename: [u8; 12],
    pub memseg: u16,
    pub length: u16,
    pub loop_begin: u16,
    pub loop_end: u16,
    pub volume: u8,
    pub c4speed: u16,
    pub audio: Vec<i16>,
}

/// One cell as the file stores it: raw values, not yet given a meaning.
#[derive(Debug, Clone, Copy, PartialEq, Eq, Structural)]
pub struct STMColumn {
    pub note: u8,
    pub instrument: u8,
    pub vol: u8,
    pub effect: u8,
    pub effect_value: u8,
}

/// The 4 cells of one row.
pub type STMRow = [STMColumn; 4];

/// The 64 rows of one pattern.
pub type STMPattern = [STMRow; 64];

/// The cell that says nothing: no note, no instrument, no volume, no effect.
pub open spec fn stm_empty_column() -> STMColumn {
    STMColumn { note: 255, instrument: 0, vol: 255, effect: 0, effect_value: 0 }
}

impl Default for STMColumn {
    fn default() -> (r: Self)
        ensures
            r == stm_empty_column(),
    {
        STMColumn { note: 255, instrument: 0, vol: 255, effect: 0, effect_value: 0 }
    }
}

/// The cells of a stored pattern, row by row.
pub open spec fn stm_grid(p: STMPattern) -> Seq<Seq<STMColumn>> {
    Seq::new(64, |r: int| p@[r]@)
}

/// A pattern of untouched cells.
pub open spec fn stm_blank_grid() -> Seq<Seq<STMColumn>> {
    Seq::new(64, |r: int| Seq::new(4, |c: int| stm_empty_column()))
}

/// A pattern of untouched cells.
fn blank_pattern() -> (p: STMPattern)
    ensures
        stm_grid(p) == stm_blank_grid(),
{
    let p = [[STMColumn::default(); 4]; 64];
    assert forall|r: int| 0 <= r < 64 implies (#[trigger] p@[r])@ =~= Seq::new(
        4,
        |c: int| stm_empty_column(),
    ) by {}
    assert(stm_grid(p) =~= stm_blank_grid());
    p
}

// ---------------------------------------------------------------------------
// Samples
// ---------------------------------------------------------------------------

/// Where the descriptor of sample `i` lies.
pub open spec fn stm_sample_at(i: int) -> int {
    STM_HEADER_LEN + 32 * i
}

impl STMSample {
    /// Whether `self` is the sample whose descriptor is stored at `o`. A
    /// sample of volume zero has no audio; any other has as many frames as
    /// its length says, those past the end of the file silent.
    pub open spec fn decoded_from(&self, b: Seq<u8>, o: int) -> bool {
        &&& self.filename@ == b.subrange(o, o + 12)
        &&& self.memseg == u16_at(b, o + 14)
        &&& self.length == u16_at(b, o + 16)
        &&& self.loop_begin == u16_at(b, o + 18)
        &&& self.loop_end == u16_at(b, o + 20)
        &&& self.volume == b[o + 22]
        &&& self.c4speed == u16_at(b, o + 24)
        &&& if self.volume == 0 {
            self.audio@.len() == 0
        } else {
            &&& self.audio@.len() == self.length
            &&& forall|i: int|
                0 <= i < self.audio@.len() ==> (#[trigger] self.audio@[i]) == pcm_frame_padded(
                    b,
                    16 * self.memseg,
                    i,
                )
        }
    }
}

/// Reads the sample whose descriptor is stored at `o`.
fn read_sample(b: &[u8], o: usize) -> (r: STMSample)
    requires
        o + 32 <= b@.len(),
    ensures
        r.decoded_from(b@, o as int),
{
    let len = b.len();
    let memseg = le_u16(b, o + 14);
    let length = le_u16(b, o + 16);
    let volume = b[o + 22];
    let audio = if volume != 0 {
        decode_pcm_padded(b, (memseg as usize) * 16, length as usize)
    } else {
        Vec::new()
    };
    STMSample {
        filename: array_at::<12>(b, o),
        memseg,
        length,
        loop_begin: le_u16(b, o + 18),
        loop_end: le_u16(b, o + 20),
        volume,
        c4speed: le_u16(b, o + 24),
        audio,
    }
}

// ---------------------------------------------------------------------------
// Orders
// ---------------------------------------------------------------------------

/// The highest pattern number, exclusive, that an order may name.
pub const STM_ORDER_LIMIT: u8 = 63;

/// The orders among the first `n` stored ones that name a pattern, in file
/// order.
pub open spec fn stm_orders(b: Seq<u8>, n: int) -> Seq<u8>
    decreases n,
{
    if n <= 0 {
        Seq::empty()
    } else if b[STM_ORDERS_AT + n - 1] < STM_ORDER_LIMIT {
        stm_orders(b, n - 1).push(b[STM_ORDERS_AT + n - 1])
    } else {
        stm_orders(b, n - 1)
    }
}

/// The playlist of a file: its 128 orders without those that name no
/// pattern, and the end-of-song marker.
pub open spec fn stm_playlist(b: Seq<u8>) -> Seq<u8> {
    stm_orders(b, 128).push(ORDER_END)
}

/// Reads the playlist.
fn read_orders(b: &[u8]) -> (r: Vec<u8>)
    requires
        b@.len() >= STM_PATTERNS_AT,
    ensures
        r@ == stm_playlist(b@),
{
    let mut r: Vec<u8> = Vec::new();
    let mut i: usize = 0;
    while i < 128
        invariant
            i <= 128,
            b@.len() >= STM_PATTERNS_AT,
            r@ == stm_orders(b@, i as int),
        decreases 128 - i,
    {
        let byte = b[STM_ORDERS_AT + i];
        if byte < STM_ORDER_LIMIT {
            r.push(byte);
        }
        i += 1;
    }
    r.push(ORDER_END);
    r
}

// ---------------------------------------------------------------------------
// Packed pattern data
// ---------------------------------------------------------------------------

/// Head byte of an empty cell.
pub const STM_CELL_EMPTY: u8 = 0xFB;

/// Head byte of a cell that is passed over, and so stays empty.
pub const STM_CELL_SKIP: u8 = 0xFC;

/// Head byte of a cell that holds a note-off and nothing else.
pub const STM_CELL_NOTE_OFF: u8 = 0xFD;

/// The effect number of the speed command.
pub const STM_EFFECT_SPEED: u8 = 1;

/// Unpacks the cell at `pos`: the position after it and the cell, or `None`
/// where the file ends inside it. The three head bytes above stand for a
/// whole cell; any other head byte is the note and is followed by three
/// bytes that hold instrument (five bits), volume (seven bits, split over
/// two bytes), effect (four bits) and argument. In files older than minor
/// version 21 the argument of the speed command is brought to its later
/// form.
pub open spec fn stm_unpack_cell(b: Seq<u8>, pos: int, minor: u8) -> Option<(int, STMColumn)> {
    if pos < 0 || pos >= b.len() {
        None
    } else if b[pos] == STM_CELL_EMPTY {
        Some((pos + 1, stm_empty_column()))
    } else if b[pos] == STM_CELL_NOTE_OFF {
        Some((pos + 1, STMColumn { note: 254, ..stm_empty_column() }))
    } else if b[pos] == STM_CELL_SKIP {
        Some((pos + 1, stm_empty_column()))
    } else if pos + 4 > b.len() {
        None
    } else {
        let effect = (b[pos + 2] % 16) as u8;
        Some(
            (
                pos + 4,
                STMColumn {
                    note: b[pos],
                    instrument: b[pos + 1] / 8,
                    vol: (b[pos + 1] % 8 + (b[pos + 2] / 16) * 8) as u8,
                    effect,
                    effect_value: if minor < STM_FIRST_MODERN_MINOR && effect == STM_EFFECT_SPEED {
                        early_tempo(b[pos + 3])
                    } else {
                        b[pos + 3]
                    },
                },
            ),
        )
    }
}

/// Unpacks the cells from number `k` on of a pattern, row by row and four
/// to a row, into `grid`: the position after the pattern and the grid, or
/// `None` where the file ends inside the pattern.
pub open spec fn stm_unpack(b: Seq<u8>, pos: int, k: int, grid: Seq<Seq<STMColumn>>, minor: u8) -> Option<
    (int, Seq<Seq<STMColumn>>),
>
    decreases 256 - k,
{
    if k < 0 || k >= 256 {
        Some((pos, grid))
    } else {
        match stm_unpack_cell(b, pos, minor) {
            None => None,
            Some((p, cell)) => stm_unpack(
                b,
                p,
                k + 1,
                grid.update(k / 4, grid[k / 4].update(k % 4, cell)),
                minor,
            ),
        }
    }
}

/// Unpacks patterns from `pos` on, one after the other, until `done` holds
/// `total` of them: their grids, or `None` where the file ends before that.
pub open spec fn stm_unpack_patterns(
    b: Seq<u8>,
    pos: int,
    done: Seq<Seq<Seq<STMColumn>>>,
    total: int,
    minor: u8,
) -> Option<Seq<Seq<Seq<STMColumn>>>>
    decreases total - done.len(),
{
    if done.len() >= total {
        Some(done)
    } else {
        match stm_unpack(b, pos, 0, stm_blank_grid(), minor) {
            None => None,
            Some((p, grid)) => stm_unpack_patterns(b, p, done.push(grid), total, minor),
        }
    }
}

/// Unpacks the cell at `pos`.
fn unpack_cell(b: &[u8], pos: usize, minor: u8) -> (r: Option<(usize, STMColumn)>)
    ensures
        match r {
            Some((p, cell)) => pos < p <= b@.len() && stm_unpack_cell(b@, pos as int, minor)
                == Some((p as int, cell)),
            None => stm_unpack_cell(b@, pos as int, minor) is None,
        },
{
    let len = b.len();
    if pos >= len {
        return None;
    }
    let head = b[pos];
    if head == STM_CELL_EMPTY {
        Some((pos + 1, STMColumn::default()))
    } else if head == STM_CELL_NOTE_OFF {
        Some(
            (pos + 1, STMColumn { note: 254, instrument: 0, vol: 255, effect: 0, effect_value: 0 }),
        )
    } else if head == STM_CELL_SKIP {
        Some((pos + 1, STMColumn::default()))
    } else if len - pos < 4 {
        None
    } else {
        let second = b[pos + 1];
        let third = b[pos + 2];
        let fourth = b[pos + 3];
        let effect = third % 16;
        Some(
            (
                pos + 4,
                STMColumn {
                    note: head,
                    instrument: second / 8,
                    vol: second % 8 + (third / 16) * 8,
                    effect,
                    effect_value: if minor < STM_FIRST_MODERN_MINOR && effect == STM_EFFECT_SPEED {
                        translate_early_tempo(fourth)
                    } else {
                        fourth
                    },
                },
            ),
        )
    }
}

/// Unpacks the pattern that starts at `pos`.
fn read_pattern(b: &[u8], pos: usize, minor: u8) -> (r: Option<(usize, STMPattern)>)
    requires
        pos <= b@.len(),
    ensures
        match r {
            Some((p, pattern)) => pos <= p <= b@.len() && stm_unpack(
                b@,
                pos as int,
                0,
                stm_blank_grid(),
                minor,
            ) == Some((p as int, stm_grid(pattern))),
            None => stm_unpack(b@, pos as int, 0, stm_blank_grid(), minor) is None,
        },
{
    let mut pattern = blank_pattern();
    let mut p = pos;
    let mut k: usize = 0;
    while k < 256
        invariant
            k <= 256,
            pos <= p <= b@.len(),
            stm_unpack(b@, pos as int, 0, stm_blank_grid(), minor) == stm_unpack(
                b@,
                p as int,
                k as int,
                stm_grid(pattern),
                minor,
            ),
        decreases 256 - k,
    {
        match unpack_cell(b, p, minor) {
            None => {
                return None;
            },
            Some((next, cell)) => {
                let ghost before = stm_grid(pattern);
                pattern[k / 4][k % 4] = cell;
                assert(stm_grid(pattern) =~~= before.update(
                    k as int / 4,
                    before[k as int / 4].update(k as int % 4, cell),
                ));
                p = next;
            },
        }
        k += 1;
    }
    Some((p, pattern))
}

/// The grids of a list of stored patterns.
pub open spec fn stm_grids(patterns: Seq<STMPattern>) -> Seq<Seq<Seq<STMColumn>>> {
    Seq::new(patterns.len(), |i: int| stm_grid(patterns[i]))
}

// ---------------------------------------------------------------------------
// The file as a whole
// ---------------------------------------------------------------------------

/// The file type of a module, which carries its samples.
pub const STM_TYPE_MODULE: u8 = 2;

/// The file type of a song, which carries none.
pub const STM_TYPE_SONG: u8 = 1;

/// Whether the eight bytes of the tracker name are all ASCII.
pub open spec fn stm_tracker_name_ascii(b: Seq<u8>) -> bool {
    forall|i: int| 0x14 <= i < 0x1C ==> #[trigger] b[i] < 128
}

/// Whether the version is one of the known releases 2.0, 2.10, 2.20, 2.21.
pub open spec fn stm_version_known(major: u8, minor: u8) -> bool {
    major == 2 && (minor == 0 || minor == 10 || minor == 20 || minor == 21)
}

/// The tempo byte of a file in its final form: brought from the early form
/// where the file is older than minor version 21, and replaced where it is
/// then zero.
pub open spec fn stm_initial_tempo(b: Seq<u8>) -> u8 {
    let stored = if b[0x1F] < STM_FIRST_MODERN_MINOR {
        early_tempo(b[0x20])
    } else {
        b[0x20]
    };
    if stored == 0 {
        STM_DEFAULT_TEMPO
    } else {
        stored
    }
}

/// Why `b` is not a decodable module, if it is not. The checks are made in
/// file order, and the first that fails decides.
pub open spec fn stm_error(b: Seq<u8>) -> Option<LoadError> {
    if b.len() < STM_HEADER_LEN {
        Some(LoadError::Truncated)
    } else if !stm_tracker_name_ascii(b) {
        Some(LoadError::InvalidSignature)
    } else if b[0x1D] == STM_TYPE_SONG {
        Some(LoadError::UnsupportedVariant(Unsupported::StmSong))
    } else if b[0x1D] != STM_TYPE_MODULE {
        Some(LoadError::InvalidSignature)
    } else if !stm_version_known(b[0x1E], b[0x1F]) {
        Some(LoadError::UnsupportedVariant(Unsupported::StmVersion))
    } else if b.len() < STM_PATTERNS_AT {
        Some(LoadError::Truncated)
    } else if stm_unpack_patterns(b, STM_PATTERNS_AT as int, Seq::empty(), b[0x21] as int, b[0x1F])
        is None {
        Some(LoadError::Truncated)
    } else {
        None
    }
}

impl STMModule {
    /// Whether `self` is the module stored in `b`.
    pub open spec fn decoded_from(&self, b: Seq<u8>) -> bool {
        &&& self.song_name@ == b.subrange(0, 20)
        &&& self.tracker_name@ == b.subrange(0x14, 0x1C)
        &&& self.dos_eof == b[0x1C]
        &&& self.file_type == b[0x1D]
        &&& self.version_major == b[0x1E]
        &&& self.version_minor == b[0x1F]
        &&& self.initial_tempo == stm_initial_tempo(b)
        &&& self.pattern_amount == b[0x21]
        &&& self.global_volume == b[0x22]
        &&& self.orders@ == stm_playlist(b)
        &&& self.samples@.len() == STM_SAMPLES
        &&& forall|i: int|
            0 <= i < STM_SAMPLES ==> (#[trigger] self.samples@[i]).decoded_from(b, stm_sample_at(i))
        &&& Some(stm_grids(self.patterns@)) == stm_unpack_patterns(
            b,
            STM_PATTERNS_AT as int,
            Seq::empty(),
            b[0x21] as int,
            b[0x1F],
        )
    }
}

impl STMModule {
    /// Whether every field is zero and every list empty.
    pub open spec fn is_blank(&self) -> bool {
        &&& self.song_name@ == zeros(20)
        &&& self.tracker_name@ == zeros(8)
        &&& self.dos_eof == 0
        &&& self.file_type == 0
        &&& self.version_major == 0
        &&& self.version_minor == 0
        &&& self.initial_tempo == 0
        &&& self.pattern_amount == 0
        &&& self.global_volume == 0
        &&& self.orders@.len() == 0
        &&& self.samples@.len() == 0
        &&& self.patterns@.len() == 0
    }
}

impl Default for STMModule {
    fn default() -> (r: Self)
        ensures
            r.is_blank(),
    {
        let r = STMModule {
            song_name: [0; 20],
            tracker_name: [0; 8],
            dos_eof: 0,
            file_type: 0,
            version_major: 0,
            version_minor: 0,
            initial_tempo: 0,
            pattern_amount: 0,
            global_volume: 0,
            orders: Vec::new(),
            samples: Vec::new(),
            patterns: Vec::new(),
        };
        assert(r.song_name@ =~= zeros(20));
        assert(r.tracker_name@ =~= zeros(8));
        r
    }
}

/// Tests that the tracker name is ASCII.
pub(crate) fn tracker_name_ascii(b: &[u8]) -> (r: bool)
    requires
        b@.len() >= STM_HEADER_LEN,
    ensures
        r == stm_tracker_name_ascii(b@),
{
    let mut i: usize = 0x14;
    while i < 0x1C
        invariant
            0x14 <= i <= 0x1C,
            b@.len() >= STM_HEADER_LEN,
            forall|j: int| 0x14 <= j < i ==> #[trigger] b@[j] < 128,
        decreases 0x1C - i,
    {
        if b[i] >= 128 {
            return false;
        }
        i += 1;
    }
    true
}

impl STMModule {
    /// Decodes a Scream Tracker 2 module from the bytes of its file.
    ///
    /// Succeeds exactly when `stm_error` finds nothing wrong, and then every
    /// field of the result is the one stored in the file. Sample data that
    /// runs past the end of the file reads as silence.
    pub fn load(bytes: &[u8]) -> (r: Result<STMModule, LoadError>)
        ensures
            match r {
                Ok(m) => stm_error(bytes@) is None && m.decoded_from(bytes@),
                Err(e) => stm_error(bytes@) == Some(e),
            },
    {
        if !in_bounds(bytes, 0, STM_HEADER_LEN) {
            return Err(LoadError::Truncated);
        }
        if !tracker_name_ascii(bytes) {
            return Err(LoadError::InvalidSignature);
        }
        let file_type = bytes[0x1D];
        if file_type == STM_TYPE_SONG {
            return Err(LoadError::UnsupportedVariant(Unsupported::StmSong));
        }
        if file_type != STM_TYPE_MODULE {
            return Err(LoadError::InvalidSignature);
        }
        let version_major = bytes[0x1E];
        let version_minor = bytes[0x1F];
        if !(version_major == 2 && (version_minor == 0 || version_minor == 10 || version_minor
            == 20 || version_minor == 21)) {
            return Err(LoadError::UnsupportedVariant(Unsupported::StmVersion));
        }
        let mut initial_tempo = bytes[0x20];
        let pattern_amount = bytes[0x21];
        if version_minor < STM_FIRST_MODERN_MINOR {
            initial_tempo = translate_early_tempo(initial_tempo);
        }
        if initial_tempo == 0 {
            initial_tempo = STM_DEFAULT_TEMPO;
        }
        if !in_bounds(bytes, 0, STM_PATTERNS_AT) {
            return Err(LoadError::Truncated);
        }
        let ghost b = bytes@;

        let mut samples: Vec<STMSample> = Vec::new();
        let mut i: usize = 0;
        while i < STM_SAMPLES
            invariant
                b == bytes@,
                b.len() >= STM_PATTERNS_AT,
                i <= STM_SAMPLES,
                samples@.len() == i,
                forall|j: int|
                    0 <= j < i ==> (#[trigger] samples@[j]).decoded_from(b, stm_sample_at(j)),
            decreases STM_SAMPLES - i,
        {
            samples.push(read_sample(bytes, STM_HEADER_LEN + 32 * i));
            i += 1;
        }

        let orders = read_orders(bytes);

        let mut patterns: Vec<STMPattern> = Vec::new();
        let mut pos: usize = STM_PATTERNS_AT;
        assert(stm_grids(patterns@) =~= Seq::empty());
        while patterns.len() < pattern_amount as usize
            invariant
                b == bytes@,
                pos <= b.len(),
                b.len() >= STM_PATTERNS_AT,
                stm_tracker_name_ascii(b),
                b[0x1D] == STM_TYPE_MODULE,
                stm_version_known(b[0x1E], b[0x1F]),
                version_minor == b[0x1F],
                pattern_amount == b[0x21],
                patterns@.len() <= pattern_amount,
                stm_unpack_patterns(
                    b,
                    STM_PATTERNS_AT as int,
                    Seq::empty(),
                    pattern_amount as int,
                    version_minor,
                ) == stm_unpack_patterns(
                    b,
                    pos as int,
                    stm_grids(patterns@),
                    pattern_amount as int,
                    version_minor,
                ),
            decreases pattern_amount - patterns@.len(),
        {
            let ghost before = stm_grids(patterns@);
            match read_pattern(bytes, pos, version_minor) {
                None => {
                    return Err(LoadError::Truncated);
                },
                Some((next, pattern)) => {
                    patterns.push(pattern);
                    pos = next;
                    assert(stm_grids(patterns@) =~= before.push(stm_grid(pattern)));
                },
            }
        }

        Ok(
            STMModule {
                song_name: array_at::<20>(bytes, 0),
                tracker_name: array_at::<8>(bytes, 0x14),
                dos_eof: bytes[0x1C],
                file_type,
                version_major,
                version_minor,
                initial_tempo,
                pattern_amount,
                global_volume: bytes[0x22],
                orders,
                samples,
                patterns,
            },
        )
    }
}

// ---------------------------------------------------------------------------
// Canonical form
// ---------------------------------------------------------------------------

/// The loop end that marks a sample without a loop.
pub const STM_NO_LOOP: u16 = 0xFFFF;

/// The mixing volume of every module of this format.
pub const STM_MIXING_VOLUME: u8 = 48;

/// The meaning of a stored note value: 255 is no note, 254 cuts, anything
/// else holds the octave, counted from the second, in its high and the
/// pitch in its low digit.
pub open spec fn stm_note(n: u8) -> Note {
    if n == 255 {
        Note::Empty
    } else if n == 254 {
        Note::Cut
    } else {
        Note::On(((n / 16 + 2) * 12 + n % 16 + 12) as u8)
    }
}

/// The meaning of a stored volume.
pub open spec fn stm_volume(v: u8) -> VolEffect {
    if v <= 64 {
        VolEffect::Volume(v)
    } else {
        VolEffect::Empty
    }
}

/// The meaning of a stored effect. The slides, vibrato, tremor and arpeggio
/// mean nothing with an argument of zero.
pub open spec fn stm_effect(code: u8, value: u8) -> Effect {
    if code == 1 {
        Effect::STMTempo(value)
    } else if code == 2 {
        Effect::PosJump(value)
    } else if code == 3 {
        Effect::PatBreak(value)
    } else if value == 0 {
        Effect::Empty
    } else if code == 4 {
        Effect::VolSlide(value)
    } else if code == 5 {
        Effect::PortaDown(value)
    } else if code == 6 {
        Effect::PortaUp(value)
    } else if code == 7 {
        Effect::TonePorta(value)
    } else if code == 8 {
        Effect::Vibrato(value)
    } else if code == 9 {
        Effect::Tremor(value)
    } else if code == 10 {
        Effect::Arpeggio(value)
    } else {
        Effect::Empty
    }
}

/// The meaning of a stored cell in a module of `samples` samples.
pub open spec fn stm_column(c: STMColumn, samples: nat) -> Column {
    Column {
        note: stm_note(c.note),
        instrument: held_instrument(stm_note(c.note), c.instrument, samples),
        vol: stm_volume(c.vol),
        effect: stm_effect(c.effect, c.effect_value),
    }
}

impl STMSample {
    /// Whether `s` is this sample in canonical form: the loop held inside
    /// the audio, and switched off where nothing of it is left.
    pub open spec fn canonical(&self, s: Sample) -> bool {
        &&& s.base_frequency == self.c4speed
        &&& s.loop_type == effective_loop(
            if self.loop_end < STM_NO_LOOP {
                LoopType::Forward
            } else {
                LoopType::Off
            },
            self.loop_begin as u32,
            self.loop_end as u32,
            self.audio@.len(),
        )
        &&& s.loop_start == self.loop_begin
        &&& s.loop_end == clamped_loop_end(self.loop_end as u32, self.audio@.len())
        &&& s.default_volume == self.volume
        &&& s.global_volume == 64
        &&& s.audio@ == self.audio@
    }
}

/// Whether `p` is the stored pattern `raw` in canonical form in a module
/// of `samples` samples: the same grid of 64 rows by 4 channels, each cell
/// given its meaning.
pub open spec fn stm_canonical(raw: STMPattern, samples: nat, p: Pattern) -> bool {
    &&& p@.len() == 64
    &&& forall|r: int| 0 <= r < 64 ==> (#[trigger] p@[r])@.len() == 4
    &&& forall|r: int, c: int|
        0 <= r < 64 && 0 <= c < 4 ==> (#[trigger] p@[r]@[c]) == stm_column(
            raw@[r]@[c],
            samples,
        )
}

/// Gives a stored cell its meaning.
fn convert_column(c: &STMColumn, samples: usize) -> (r: Column)
    ensures
        r == stm_column(*c, samples as nat),
{
    let note = if c.note == 255 {
        Note::Empty
    } else if c.note == 254 {
        Note::Cut
    } else {
        Note::On((c.note / 16 + 2) * 12 + c.note % 16 + 12)
    };
    let vol = if c.vol <= 64 {
        VolEffect::Volume(c.vol)
    } else {
        VolEffect::Empty
    };
    let v = c.effect_value;
    let effect = match c.effect {
        1 => Effect::STMTempo(v),
        2 => Effect::PosJump(v),
        3 => Effect::PatBreak(v),
        4 => if v != 0 {
            Effect::VolSlide(v)
        } else {
            Effect::Empty
        },
        5 => if v != 0 {
            Effect::PortaDown(v)
        } else {
            Effect::Empty
        },
        6 => if v != 0 {
            Effect::PortaUp(v)
        } else {
            Effect::Empty
        },
        7 => if v != 0 {
            Effect::TonePorta(v)
        } else {
            Effect::Empty
        },
        8 => if v != 0 {
            Effect::Vibrato(v)
        } else {
            Effect::Empty
        },
        9 => if v != 0 {
            Effect::Tremor(v)
        } else {
            Effect::Empty
        },
        10 => if v != 0 {
            Effect::Arpeggio(v)
        } else {
            Effect::Empty
        },
        _ => Effect::Empty,
    };
    Column { note, instrument: hold_instrument(note, c.instrument, samples), vol, effect }
}

/// Gives each cell of a stored row its meaning.
fn convert_row(row: &STMRow, samples: usize) -> (r: Row)
    ensures
        r@.len() == 4,
        forall|c: int| 0 <= c < 4 ==> (#[trigger] r@[c]) == stm_column(row@[c], samples as nat),
{
    let mut r: Row = Vec::with_capacity(4);
    let mut c: usize = 0;
    while c < 4
        invariant
            c <= 4,
            r@.len() == c,
            forall|k: int|
                0 <= k < c ==> (#[trigger] r@[k]) == stm_column(row@[k], samples as nat),
        decreases 4 - c,
    {
        r.push(convert_column(&row[c], samples));
        c += 1;
    }
    r
}

/// Gives each cell of a stored pattern its meaning.
fn convert_pattern(p: &STMPattern, samples: usize) -> (r: Pattern)
    ensures
        stm_canonical(*p, samples as nat, r),
{
    let mut r: Pattern = Vec::with_capacity(64);
    let mut i: usize = 0;
    while i < 64
        invariant
            i <= 64,
            r@.len() == i,
            forall|k: int| 0 <= k < i ==> (#[trigger] r@[k])@.len() == 4,
            forall|k: int, c: int|
                0 <= k < i && 0 <= c < 4 ==> (#[trigger] r@[k]@[c]) == stm_column(
                    p@[k]@[c],
                    samples as nat,
                ),
        decreases 64 - i,
    {
        r.push(convert_row(&p[i], samples));
        i += 1;
    }
    r
}

impl STMModule {
    /// Whether `m` is this module in canonical form. The tempo byte serves
    /// twice: as it stands for the tempo, and by its high digit for the
    /// speed. The playlist is the order list, made to end in the
    /// end-of-song marker where it does not yet.
    pub open spec fn canonical(&self, m: Module) -> bool {
        &&& is_field_text(m.name@, self.song_name@)
        &&& m.mode == PlaybackMode::S3M(S3MOptions { gus: false })
        &&& !m.linear_freq_slides
        &&& !m.fast_volume_slides
        &&& m.initial_tempo == self.initial_tempo
        &&& m.initial_speed == self.initial_tempo / 16
        &&& m.initial_global_volume == 64
        &&& m.mixing_volume == STM_MIXING_VOLUME
        &&& m.samples@.len() == self.samples@.len()
        &&& forall|i: int|
            0 <= i < m.samples@.len() ==> (#[trigger] self.samples@[i]).canonical(m.samples@[i])
        &&& m.patterns@.len() == self.patterns@.len()
        &&& forall|i: int|
            0 <= i < m.patterns@.len() ==> stm_canonical(
                #[trigger] self.patterns@[i],
                self.samples@.len(),
                m.patterns@[i],
            )
        &&& m.playlist@ == super::module::terminated(self.orders@)
    }
}

impl ModuleInterface for STMModule {
    /// Every sample in canonical form, in file order.
    fn samples(&self) -> (r: Vec<Sample>)
        ensures
            r@.len() == self.samples@.len(),
            forall|i: int| 0 <= i < r@.len() ==> (#[trigger] self.samples@[i]).canonical(r@[i]),
    {
        let mut r: Vec<Sample> = Vec::with_capacity(self.samples.len());
        let mut i: usize = 0;
        while i < self.samples.len()
            invariant
                i <= self.samples@.len(),
                r@.len() == i,
                samples_wf(r@),
                forall|k: int| 0 <= k < i ==> (#[trigger] self.samples@[k]).canonical(r@[k]),
            decreases self.samples@.len() - i,
        {
            let s = &self.samples[i];
            let kind = if s.loop_end < STM_NO_LOOP {
                LoopType::Forward
            } else {
                LoopType::Off
            };
            r.push(
                make_sample(
                    s.c4speed as u32,
                    kind,
                    s.loop_begin as u32,
                    s.loop_end as u32,
                    s.volume,
                    64,
                    s.audio.clone(),
                ),
            );
            i += 1;
        }
        r
    }

    /// Every pattern in canonical form, in file order.
    fn patterns(&self) -> (r: Vec<Pattern>)
        ensures
            r@.len() == self.patterns@.len(),
            instruments_valid(r@, self.samples@.len()),
            forall|i: int|
                0 <= i < r@.len() ==> stm_canonical(
                    #[trigger] self.patterns@[i],
                    self.samples@.len(),
                    r@[i],
                ),
    {
        let samples = self.samples.len();
        let mut r: Vec<Pattern> = Vec::with_capacity(self.patterns.len());
        let mut i: usize = 0;
        while i < self.patterns.len()
            invariant
                i <= self.patterns@.len(),
                r@.len() == i,
                samples == self.samples@.len(),
                instruments_valid(r@, samples as nat),
                forall|k: int|
                    0 <= k < i ==> stm_canonical(
                        #[trigger] self.patterns@[k],
                        samples as nat,
                        r@[k],
                    ),
            decreases self.patterns@.len() - i,
        {
            let ghost before = r@;
            r.push(convert_pattern(&self.patterns[i], samples));
            assert forall|p: int, w: int, c: int|
                0 <= p < r@.len() && 0 <= w < r@[p]@.len() && 0 <= c < r@[p]@[w]@.len() && (
                #[trigger] r@[p]@[w]@[c]).note is On implies r@[p]@[w]@[c].instrument
                <= samples by {
                if p < i {
                    assert(r@[p] == before[p]);
                }
            }
            i += 1;
        }
        r
    }

    /// The song in canonical form.
    fn module(&self) -> (m: Module)
        ensures
            self.canonical(m),
    {
        Module {
            name: field_text(self.song_name.as_slice()),
            mode: PlaybackMode::S3M(S3MOptions { gus: false }),
            linear_freq_slides: false,
            fast_volume_slides: false,
            initial_tempo: self.initial_tempo,
            initial_speed: self.initial_tempo / 16,
            initial_global_volume: 64,
            mixing_volume: STM_MIXING_VOLUME,
            samples: self.samples(),
            patterns: self.patterns(),
            playlist: super::module::make_playlist(&self.orders),
        }
    }
}

/// Every pattern in canonical form has four channels.
pub proof fn lemma_stm_channel_count(raw: STMPattern, samples: nat, p: Pattern)
    requires
        stm_canonical(raw, samples, p),
    ensures
        rows_have_width(p@, 4),
        channel_count(p@) == 4,
{
    lemma_channel_count_uniform(p@, 4);
}

/// The playlist of a decoded file ends in the end-of-song marker, and the
/// canonical playlist is that very list.
pub proof fn lemma_stm_playlist(b: Seq<u8>, m: STMModule)
    requires
        m.decoded_from(b),
    ensures
        playlist_terminated(m.orders@),
        super::module::terminated(m.orders@) == m.orders@,
{
}

} // verus!
