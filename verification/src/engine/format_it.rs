//! Impulse Tracker modules: the file's own structures, the decoder that fills
//! them from a byte image, and their canonical form.

use super::bytes::{
    array_at, field_text, fits, in_bounds, is_field_text, le_u16, le_u32, signed8, u16_at, u32_at,
    vec_at, zeros,
};
use super::error::{LoadError, Unsupported};
use super::module::{
    channel_count, clamped_loop_end, effective_loop, empty_column, held_instrument,
    hold_instrument, instruments_valid, lemma_channel_count_uniform, lemma_channel_count_within,
    lettered_effect, lettered_effect_of, make_playlist, make_sample, rows_have_width, samples_wf,
    terminated, volume_column, volume_column_of, Column, LoopType, Module, ModuleInterface, Note,
    Pattern, PlaybackMode, Row, Sample,
};
use super::pcm::{decode_pcm, pcm_frame, pcm_frames};
use vstd::prelude::*;

verus! {

/// Length of the fixed header that precedes the order list.
pub const IT_HEADER_LEN: usize = 0xC0;

/// Length of an instrument up to its first envelope.
pub const IT_INSTRUMENT_FIXED_LEN: usize = 0x130;

/// Length of a sample header.
pub const IT_SAMPLE_HEADER_LEN: usize = 0x50;

/// Number of rows of a pattern that the file leaves out.
pub const IT_EMPTY_PATTERN_ROWS: u16 = 64;

/// The file as stored: header fields, the three offset tables, and what they
/// point to.
#[derive(Debug)]
pub struct ITModule {
    pub _impm: [u8; 4],
    pub song_name: [u8; 26],
    pub _pattern_highlight: u16,
    pub order_amount: u16,
    pub instrument_amount: u16,
    pub sample_amount: u16,
    pub pattern_amount: u16,
    pub tracker_id: u16,
    pub format_id: u16,
    pub flags: u16,
    pub special: u16,
    pub global_volume: u8,
    pub mixing_volume: u8,
    pub initial_speed: u8,
    pub initial_tempo: u8,
    pub separation: u8,
    pub pitch_wheel_depth: u8,
    pub message_length: u16,
    pub message_offset: u32,
    pub _reserved: [u8; 4],
    pub channel_pan: [u8; 64],
    pub channel_volume: [u8; 64],
    pub orders: Vec<u8>,
    pub instrument_offsets: Vec<u32>,
    pub sample_offsets: Vec<u32>,
    pub pattern_offsets: Vec<u32>,
    pub instruments: Vec<ITInstrument>,
    pub samples: Vec<ITSample>,
    pub patterns: Vec<ITPattern>,
}

/// An instrument as the file stores it: settings, the map from notes to
/// samples, and the three envelopes for volume, panning and pitch.
#[derive(Debug, Default)]
pub struct ITInstrument {
    pub _impi: [u8; 4],
    pub filename: [u8; 12],
    pub _00h: u8,
    pub new_note_action: u8,
    pub duplicate_check_type: u8,
    pub duplicate_check_action: u8,
    pub fadeout: u16,
    pub pitch_pan_sepraration: i8,
    pub pitch_pan_center: u8,
    pub global_volume: u8,
    pub default_pan: u8,
    pub random_volume: u8,
    pub random_pan: u8,
    pub _tracker_version: u16,
    pub _number_of_samples: u8,
    pub _x: u8,
    pub instrument_name: [u8; 26],
    pub initial_filter_cutoff: u8,
    pub initial_filter_resonance: u8,
    pub midi_channel: u8,
    pub midi_program: u8,
    pub midi_bank: u16,
    pub note_sample_table: Vec<ITNoteSamplePair>,
    pub envelopes: [ITEnvelope; 3],
}

/// What one note of an instrument plays: a note of a sample.
#[derive(Debug, Default, Clone, Copy, PartialEq, Eq, Structural)]
pub struct ITNoteSamplePair {
    pub note: u8,
    pub sample: u8,
}

/// An envelope as the file stores it, with as many nodes as it declares.
#[derive(Debug, Default)]
pub struct ITEnvelope {
    pub flag: u8,
    pub node_amount: u8,
    pub loop_begin: u8,
    pub loop_end: u8,
    pub sustain_loop_begin: u8,
    pub sustain_loop_end: u8,
    pub nodes: Vec<ITEnvelopeNode>,
}

/// One node of an envelope: a value and the tick at which it is reached.
#[derive(Debug, Default, Clone, Copy, PartialEq, Eq, Structural)]
pub struct ITEnvelopeNode {
    pub y: u8,
    pub tick: u16,
}

/// A sample as the file stores it: the header fields, and the audio decoded
/// to signed sixteen bits.
#[derive(Debug, Default)]
pub struct ITSample {
    pub _imps: [u8; 4],
    pub filename: [u8; 12],
    pub _00h: u8,
    pub global_volume: u8,
    pub flags: u8,
    pub volume: u8,
    pub sample_name: [u8; 26],
    pub convert: u8,
    pub default_pan: u8,
    pub length: u32,
    pub loop_begin: u32,
    pub loop_end: u32,
    pub c5_speed: u32,
    pub sustain_loop_begin: u32,
    pub sustain_loop_end: u32,
    pub sample_pointer: u32,
    pub vibrato_speed: u8,
    pub vibrato_depth: u8,
    pub vibrato_rate: u8,
    pub vibrato_type: u8,
    pub audio: Vec<i16>,
}

/// A pattern as the file stores it: the header fields and the unpacked rows.
#[derive(Debug, Default)]
pub struct ITPattern {
    pub length: u16,
    pub rows_amount: u16,
    pub _x: [u8; 4],
    pub rows: ITRow,
}

/// One cell as the file stores it: raw bytes, not yet given a meaning.
#[derive(Debug, Clone, Copy, PartialEq, Eq, Structural)]
pub struct ITColumn {
    pub note: u8,
    pub instrument: u8,
    pub vol: u8,
    pub effect: u8,
    pub effect_value: u8,
}

/// The rows of one pattern, each a list of cells.
pub type ITRow = Vec<Vec<ITColumn>>;

/// The cell that says nothing: no note, no instrument, no volume, no effect.
pub open spec fn it_empty_column() -> ITColumn {
    ITColumn { note: 120, instrument: 0, vol: 255, effect: 0, effect_value: 0 }
}

impl Default for ITColumn {
    fn default() -> (r: Self)
        ensures
            r == it_empty_column(),
    {
        ITColumn { note: 120, instrument: 0, vol: 255, effect: 0, effect_value: 0 }
    }
}

// ---------------------------------------------------------------------------
// Envelopes and instruments
// ---------------------------------------------------------------------------

/// Bytes that the envelope starting at `at` occupies: six of header and
/// three for each node it declares.
pub open spec fn it_envelope_len(b: Seq<u8>, at: int) -> int {
    6 + 3 * (b[at + 1] as int)
}

/// Whether the envelope starting at `at` lies inside the file.
pub open spec fn it_envelope_fits(b: Seq<u8>, at: int) -> bool {
    fits(b, at, 6) && fits(b, at, it_envelope_len(b, at))
}

impl ITEnvelope {
    /// Whether `self` is the envelope stored at `at`.
    pub open spec fn decoded_from(&self, b: Seq<u8>, at: int) -> bool {
        &&& self.flag == b[at]
        &&& self.node_amount == b[at + 1]
        &&& self.loop_begin == b[at + 2]
        &&& self.loop_end == b[at + 3]
        &&& self.sustain_loop_begin == b[at + 4]
        &&& self.sustain_loop_end == b[at + 5]
        &&& self.nodes@.len() == self.node_amount
        &&& forall|i: int|
            0 <= i < self.nodes@.len() ==> {
                &&& (#[trigger] self.nodes@[i]).y == b[at + 6 + 3 * i]
                &&& self.nodes@[i].tick == u16_at(b, at + 7 + 3 * i)
            }
    }
}

/// Reads the envelope stored at `at`, or reports that the file ends inside it.
fn read_envelope(b: &[u8], at: usize) -> (r: Option<ITEnvelope>)
    ensures
        r is Some <==> it_envelope_fits(b@, at as int),
        r matches Some(e) ==> e.decoded_from(b@, at as int),
{
    if !in_bounds(b, at, 6) {
        return None;
    }
    let n = b[at + 1];
    let total: usize = 6 + 3 * (n as usize);
    if !in_bounds(b, at, total) {
        return None;
    }
    let mut nodes: Vec<ITEnvelopeNode> = Vec::new();
    let mut i: usize = 0;
    while i < n as usize
        invariant
            i <= n,
            total == 6 + 3 * n,
            fits(b@, at as int, total as int),
            b@.len() <= usize::MAX,
            nodes@.len() == i,
            forall|j: int|
                0 <= j < i ==> {
                    &&& (#[trigger] nodes@[j]).y == b@[at + 6 + 3 * j]
                    &&& nodes@[j].tick == u16_at(b@, at + 7 + 3 * j)
                },
        decreases n - i,
    {
        let y = b[at + 6 + 3 * i];
        let tick = le_u16(b, at + 7 + 3 * i);
        nodes.push(ITEnvelopeNode { y, tick });
        i += 1;
    }
    Some(
        ITEnvelope {
            flag: b[at],
            node_amount: n,
            loop_begin: b[at + 2],
            loop_end: b[at + 3],
            sustain_loop_begin: b[at + 4],
            sustain_loop_end: b[at + 5],
            nodes,
        },
    )
}

/// Where the first envelope of the instrument at `o` starts.
pub open spec fn it_envelope0(o: int) -> int {
    o + IT_INSTRUMENT_FIXED_LEN
}

/// Where the second envelope starts: right after the nodes of the first.
pub open spec fn it_envelope1(b: Seq<u8>, o: int) -> int {
    it_envelope0(o) + it_envelope_len(b, it_envelope0(o))
}

/// Where the third envelope starts: right after the nodes of the second.
pub open spec fn it_envelope2(b: Seq<u8>, o: int) -> int {
    it_envelope1(b, o) + it_envelope_len(b, it_envelope1(b, o))
}

/// Whether the instrument at `o`, with its three envelopes read one after
/// the other, lies inside the file.
pub open spec fn it_instrument_fits(b: Seq<u8>, o: int) -> bool {
    &&& fits(b, o, IT_INSTRUMENT_FIXED_LEN as int)
    &&& it_envelope_fits(b, it_envelope0(o))
    &&& it_envelope_fits(b, it_envelope1(b, o))
    &&& it_envelope_fits(b, it_envelope2(b, o))
}

impl ITInstrument {
    /// Whether `self` is the instrument stored at `o`.
    pub open spec fn decoded_from(&self, b: Seq<u8>, o: int) -> bool {
        &&& self._impi@ == b.subrange(o, o + 4)
        &&& self.filename@ == b.subrange(o + 4, o + 16)
        &&& self._00h == b[o + 0x10]
        &&& self.new_note_action == b[o + 0x11]
        &&& self.duplicate_check_type == b[o + 0x12]
        &&& self.duplicate_check_action == b[o + 0x13]
        &&& self.fadeout == u16_at(b, o + 0x14)
        &&& self.pitch_pan_sepraration == signed8(b[o + 0x16])
        &&& self.pitch_pan_center == b[o + 0x17]
        &&& self.global_volume == b[o + 0x18]
        &&& self.default_pan == b[o + 0x19]
        &&& self.random_volume == b[o + 0x1A]
        &&& self.random_pan == b[o + 0x1B]
        &&& self._tracker_version == u16_at(b, o + 0x1C)
        &&& self._number_of_samples == b[o + 0x1E]
        &&& self._x == b[o + 0x1F]
        &&& self.instrument_name@ == b.subrange(o + 0x20, o + 0x3A)
        &&& self.initial_filter_cutoff == b[o + 0x3A]
        &&& self.initial_filter_resonance == b[o + 0x3B]
        &&& self.midi_channel == b[o + 0x3C]
        &&& self.midi_program == b[o + 0x3D]
        &&& self.midi_bank == u16_at(b, o + 0x3E)
        &&& self.note_sample_table@.len() == 120
        &&& forall|i: int|
            0 <= i < 120 ==> {
                &&& (#[trigger] self.note_sample_table@[i]).note == b[o + 0x40 + 2 * i]
                &&& self.note_sample_table@[i].sample == b[o + 0x41 + 2 * i]
            }
        &&& self.envelopes@[0].decoded_from(b, it_envelope0(o))
        &&& self.envelopes@[1].decoded_from(b, it_envelope1(b, o))
        &&& self.envelopes@[2].decoded_from(b, it_envelope2(b, o))
    }
}

/// The byte `v` as a signed number.
fn as_signed8(v: u8) -> (r: i8)
    ensures
        r == signed8(v),
{
    if v < 128 {
        v as i8
    } else {
        (v as i16 - 256) as i8
    }
}

/// Reads the instrument stored at `o`, or reports that the file ends inside it.
fn read_instrument(b: &[u8], o: usize) -> (r: Option<ITInstrument>)
    ensures
        r is Some <==> it_instrument_fits(b@, o as int),
        r matches Some(ins) ==> ins.decoded_from(b@, o as int),
{
    if !in_bounds(b, o, IT_INSTRUMENT_FIXED_LEN) {
        return None;
    }
    let mut table: Vec<ITNoteSamplePair> = Vec::new();
    let mut i: usize = 0;
    while i < 120
        invariant
            i <= 120,
            fits(b@, o as int, IT_INSTRUMENT_FIXED_LEN as int),
            b@.len() <= usize::MAX,
            table@.len() == i,
            forall|j: int|
                0 <= j < i ==> {
                    &&& (#[trigger] table@[j]).note == b@[o + 0x40 + 2 * j]
                    &&& table@[j].sample == b@[o + 0x41 + 2 * j]
                },
        decreases 120 - i,
    {
        table.push(ITNoteSamplePair { note: b[o + 0x40 + 2 * i], sample: b[o + 0x41 + 2 * i] });
        i += 1;
    }
    let at0 = o + IT_INSTRUMENT_FIXED_LEN;
    let e0 = match read_envelope(b, at0) {
        Some(e) => e,
        None => { return None; },
    };
    let at1 = at0 + 6 + 3 * (e0.node_amount as usize);
    let e1 = match read_envelope(b, at1) {
        Some(e) => e,
        None => { return None; },
    };
    let at2 = at1 + 6 + 3 * (e1.node_amount as usize);
    let e2 = match read_envelope(b, at2) {
        Some(e) => e,
        None => { return None; },
    };
    Some(
        ITInstrument {
            _impi: array_at::<4>(b, o),
            filename: array_at::<12>(b, o + 4),
            _00h: b[o + 0x10],
            new_note_action: b[o + 0x11],
            duplicate_check_type: b[o + 0x12],
            duplicate_check_action: b[o + 0x13],
            fadeout: le_u16(b, o + 0x14),
            pitch_pan_sepraration: as_signed8(b[o + 0x16]),
            pitch_pan_center: b[o + 0x17],
            global_volume: b[o + 0x18],
            default_pan: b[o + 0x19],
            random_volume: b[o + 0x1A],
            random_pan: b[o + 0x1B],
            _tracker_version: le_u16(b, o + 0x1C),
            _number_of_samples: b[o + 0x1E],
            _x: b[o + 0x1F],
            instrument_name: array_at::<26>(b, o + 0x20),
            initial_filter_cutoff: b[o + 0x3A],
            initial_filter_resonance: b[o + 0x3B],
            midi_channel: b[o + 0x3C],
            midi_program: b[o + 0x3D],
            midi_bank: le_u16(b, o + 0x3E),
            note_sample_table: table,
            envelopes: [e0, e1, e2],
        },
    )
}

// ---------------------------------------------------------------------------
// Samples
// ---------------------------------------------------------------------------

/// Sample flag: the data is sixteen bits wide.
pub const IT_SAMPLE_WIDE: u8 = 0b10;

/// Sample flag: the data is compressed.
pub const IT_SAMPLE_PACKED: u8 = 0b1000;

/// Sample flag: the sample loops.
pub const IT_SAMPLE_LOOP: u8 = 0b1_0000;

/// Sample flag: the loop runs back and forth.
pub const IT_SAMPLE_PINGPONG: u8 = 0b100_0000;

/// Convert flag: the data is signed.
pub const IT_CONVERT_SIGNED: u8 = 0b1;

/// Why the sample whose header is at `o` cannot be decoded, if it cannot.
/// Offset 0 stands for a sample that the file leaves out, which is no error.
pub open spec fn it_sample_error(b: Seq<u8>, o: int) -> Option<LoadError> {
    if o == 0 {
        None
    } else if !fits(b, o, IT_SAMPLE_HEADER_LEN as int) {
        Some(LoadError::Truncated)
    } else if b[o + 0x12] & IT_SAMPLE_PACKED != 0 {
        Some(LoadError::UnsupportedVariant(Unsupported::CompressedSample))
    } else if b[o + 0x12] & IT_SAMPLE_WIDE != 0 && 2 * u32_at(b, o + 0x30) > u32::MAX {
        Some(LoadError::OutOfRange)
    } else {
        None
    }
}

impl ITSample {
    /// Whether `self` is the sample left out of a file: every field zero and
    /// no audio.
    pub open spec fn is_silent(&self) -> bool {
        &&& self._imps@ == zeros(4)
        &&& self.filename@ == zeros(12)
        &&& self._00h == 0
        &&& self.global_volume == 0
        &&& self.flags == 0
        &&& self.volume == 0
        &&& self.sample_name@ == zeros(26)
        &&& self.convert == 0
        &&& self.default_pan == 0
        &&& self.length == 0
        &&& self.loop_begin == 0
        &&& self.loop_end == 0
        &&& self.c5_speed == 0
        &&& self.sustain_loop_begin == 0
        &&& self.sustain_loop_end == 0
        &&& self.sample_pointer == 0
        &&& self.vibrato_speed == 0
        &&& self.vibrato_depth == 0
        &&& self.vibrato_rate == 0
        &&& self.vibrato_type == 0
        &&& self.audio@.len() == 0
    }

    /// Whether the header fields of `self` are those stored at `o`.
    pub open spec fn header_from(&self, b: Seq<u8>, o: int) -> bool {
        &&& self._imps@ == b.subrange(o, o + 4)
        &&& self.filename@ == b.subrange(o + 4, o + 16)
        &&& self._00h == b[o + 0x10]
        &&& self.global_volume == b[o + 0x11]
        &&& self.flags == b[o + 0x12]
        &&& self.volume == b[o + 0x13]
        &&& self.sample_name@ == b.subrange(o + 0x14, o + 0x2E)
        &&& self.convert == b[o + 0x2E]
        &&& self.default_pan == b[o + 0x2F]
        &&& self.length == u32_at(b, o + 0x30)
        &&& self.loop_begin == u32_at(b, o + 0x34)
        &&& self.loop_end == u32_at(b, o + 0x38)
        &&& self.c5_speed == u32_at(b, o + 0x3C)
        &&& self.sustain_loop_begin == u32_at(b, o + 0x40)
        &&& self.sustain_loop_end == u32_at(b, o + 0x44)
        &&& self.sample_pointer == u32_at(b, o + 0x48)
        &&& self.vibrato_speed == b[o + 0x4C]
        &&& self.vibrato_depth == b[o + 0x4D]
        &&& self.vibrato_rate == b[o + 0x4E]
        &&& self.vibrato_type == b[o + 0x4F]
    }

    /// Whether the audio of `self` is the data that its header points to:
    /// as many of its frames as the file holds, each converted to signed
    /// sixteen bits.
    pub open spec fn audio_from(&self, b: Seq<u8>) -> bool {
        let wide = self.flags & IT_SAMPLE_WIDE != 0;
        let signed = self.convert & IT_CONVERT_SIGNED != 0;
        &&& self.audio@.len() == pcm_frames(b, self.sample_pointer as int, self.length as int, wide)
        &&& forall|i: int|
            0 <= i < self.audio@.len() ==> (#[trigger] self.audio@[i]) == pcm_frame(
                b,
                self.sample_pointer as int,
                i,
                wide,
                signed,
            )
    }

    /// Whether `self` is the sample whose header is stored at `o`.
    pub open spec fn decoded_from(&self, b: Seq<u8>, o: int) -> bool {
        if o == 0 {
            self.is_silent()
        } else {
            self.header_from(b, o) && self.audio_from(b)
        }
    }
}

/// The sample that a file leaves out.
fn silent_sample() -> (r: ITSample)
    ensures
        r.is_silent(),
{
    let r = ITSample {
        _imps: [0u8; 4],
        filename: [0u8; 12],
        _00h: 0,
        global_volume: 0,
        flags: 0,
        volume: 0,
        sample_name: [0u8; 26],
        convert: 0,
        default_pan: 0,
        length: 0,
        loop_begin: 0,
        loop_end: 0,
        c5_speed: 0,
        sustain_loop_begin: 0,
        sustain_loop_end: 0,
        sample_pointer: 0,
        vibrato_speed: 0,
        vibrato_depth: 0,
        vibrato_rate: 0,
        vibrato_type: 0,
        audio: Vec::new(),
    };
    assert(r._imps@ =~= zeros(4));
    assert(r.filename@ =~= zeros(12));
    assert(r.sample_name@ =~= zeros(26));
    r
}

/// Reads the sample whose header is stored at `o`.
fn read_sample(b: &[u8], o: usize) -> (r: Result<ITSample, LoadError>)
    ensures
        match r {
            Ok(s) => it_sample_error(b@, o as int) is None && s.decoded_from(b@, o as int),
            Err(e) => it_sample_error(b@, o as int) == Some(e),
        },
{
    if o == 0 {
        return Ok(silent_sample());
    }
    if !in_bounds(b, o, IT_SAMPLE_HEADER_LEN) {
        return Err(LoadError::Truncated);
    }
    let flags = b[o + 0x12];
    let convert = b[o + 0x2E];
    let length = le_u32(b, o + 0x30);
    let sample_pointer = le_u32(b, o + 0x48);
    if flags & IT_SAMPLE_PACKED != 0 {
        return Err(LoadError::UnsupportedVariant(Unsupported::CompressedSample));
    }
    let wide = flags & IT_SAMPLE_WIDE != 0;
    if wide && length > u32::MAX / 2 {
        return Err(LoadError::OutOfRange);
    }
    let audio = decode_pcm(
        b,
        sample_pointer as usize,
        length as usize,
        wide,
        convert & IT_CONVERT_SIGNED != 0,
    );
    Ok(
        ITSample {
            _imps: array_at::<4>(b, o),
            filename: array_at::<12>(b, o + 4),
            _00h: b[o + 0x10],
            global_volume: b[o + 0x11],
            flags,
            volume: b[o + 0x13],
            sample_name: array_at::<26>(b, o + 0x14),
            convert,
            default_pan: b[o + 0x2F],
            length,
            loop_begin: le_u32(b, o + 0x34),
            loop_end: le_u32(b, o + 0x38),
            c5_speed: le_u32(b, o + 0x3C),
            sustain_loop_begin: le_u32(b, o + 0x40),
            sustain_loop_end: le_u32(b, o + 0x44),
            sample_pointer,
            vibrato_speed: b[o + 0x4C],
            vibrato_depth: b[o + 0x4D],
            vibrato_rate: b[o + 0x4E],
            vibrato_type: b[o + 0x4F],
            audio,
        },
    )
}

// ---------------------------------------------------------------------------
// Packed pattern data
// ---------------------------------------------------------------------------

/// What the unpacker carries from one cell to the next: for each of the 64
/// channels the last mask, note, instrument, volume and effect seen on it;
/// the row being assembled; and the number of channels up to the highest
/// one touched so far in the pattern.
pub struct ITUnpackState {
    pub masks: Seq<u8>,
    pub notes: Seq<u8>,
    pub instruments: Seq<u8>,
    pub volumes: Seq<u8>,
    pub effects: Seq<u8>,
    pub values: Seq<u8>,
    pub row: Seq<ITColumn>,
    pub width: int,
}

/// A row of 64 empty cells.
pub open spec fn it_blank_row() -> Seq<ITColumn> {
    Seq::new(64, |i: int| it_empty_column())
}

/// The unpacker's state at the start of a pattern.
pub open spec fn it_unpack_start() -> ITUnpackState {
    ITUnpackState {
        masks: Seq::new(64, |i: int| 0u8),
        notes: Seq::new(64, |i: int| 119u8),
        instruments: Seq::new(64, |i: int| 0u8),
        volumes: Seq::new(64, |i: int| 255u8),
        effects: Seq::new(64, |i: int| 0u8),
        values: Seq::new(64, |i: int| 0u8),
        row: it_blank_row(),
        width: 0,
    }
}

/// The channel that a non-zero channel byte addresses.
pub open spec fn it_channel_of(cv: u8) -> int {
    (cv as int - 1) % 64
}

/// Unpacks the cell whose channel byte is at `pos`: the position after the
/// cell and the state with the cell written into the row, or `None` where
/// the data ends inside the cell.
///
/// A channel byte of 128 or more is followed by a new mask for its channel;
/// otherwise the channel's last mask applies. Mask bits 0 to 3 say which of
/// note, instrument, volume and effect (two bytes) follow, in that order;
/// bits 4 to 7 say which of them repeat the channel's last value instead.
pub open spec fn it_unpack_cell(b: Seq<u8>, pos: int, st: ITUnpackState) -> Option<
    (int, ITUnpackState),
> {
    let cv = b[pos];
    let ch = it_channel_of(cv);
    let p_mask = pos + 1;
    let p_note = if cv >= 128 {
        p_mask + 1
    } else {
        p_mask
    };
    let mask = if cv >= 128 {
        b[p_mask]
    } else {
        st.masks[ch]
    };
    let p_ins = if mask & 1 != 0 {
        p_note + 1
    } else {
        p_note
    };
    let p_vol = if mask & 2 != 0 {
        p_ins + 1
    } else {
        p_ins
    };
    let p_fx = if mask & 4 != 0 {
        p_vol + 1
    } else {
        p_vol
    };
    let p_end = if mask & 8 != 0 {
        p_fx + 2
    } else {
        p_fx
    };
    if p_end > b.len() {
        None
    } else {
        let cell = ITColumn {
            note: if mask & 1 != 0 {
                b[p_note]
            } else if mask & 16 != 0 {
                st.notes[ch]
            } else {
                120
            },
            instrument: if mask & 2 != 0 {
                b[p_ins]
            } else if mask & 32 != 0 {
                st.instruments[ch]
            } else {
                0
            },
            vol: if mask & 4 != 0 {
                b[p_vol]
            } else if mask & 64 != 0 {
                st.volumes[ch]
            } else {
                255
            },
            effect: if mask & 8 != 0 {
                b[p_fx]
            } else if mask & 128 != 0 {
                st.effects[ch]
            } else {
                0
            },
            effect_value: if mask & 8 != 0 {
                b[p_fx + 1]
            } else if mask & 128 != 0 {
                st.values[ch]
            } else {
                0
            },
        };
        Some(
            (
                p_end,
                ITUnpackState {
                    masks: st.masks.update(ch, mask),
                    notes: if mask & 1 != 0 {
                        st.notes.update(ch, b[p_note])
                    } else {
                        st.notes
                    },
                    instruments: if mask & 2 != 0 {
                        st.instruments.update(ch, b[p_ins])
                    } else {
                        st.instruments
                    },
                    volumes: if mask & 4 != 0 {
                        st.volumes.update(ch, b[p_vol])
                    } else {
                        st.volumes
                    },
                    effects: if mask & 8 != 0 {
                        st.effects.update(ch, b[p_fx])
                    } else {
                        st.effects
                    },
                    values: if mask & 8 != 0 {
                        st.values.update(ch, b[p_fx + 1])
                    } else {
                        st.values
                    },
                    row: st.row.update(ch, cell),
                    width: if st.width < ch + 1 {
                        ch + 1
                    } else {
                        st.width
                    },
                },
            ),
        )
    }
}

/// The row that an end-of-row byte emits: the assembled cells up to the
/// highest channel touched so far.
pub open spec fn it_unpack_emit(st: ITUnpackState) -> Seq<ITColumn> {
    st.row.subrange(0, st.width)
}

/// The state after an end-of-row byte: a fresh row, the memories kept.
pub open spec fn it_unpack_next_row(st: ITUnpackState) -> ITUnpackState {
    ITUnpackState { row: it_blank_row(), ..st }
}

/// Runs the unpacker from `pos` until `rows` holds `total` rows, and gives
/// those rows; `None` where the data ends before that.
pub open spec fn it_unpack(
    b: Seq<u8>,
    pos: int,
    st: ITUnpackState,
    rows: Seq<Seq<ITColumn>>,
    total: int,
) -> Option<Seq<Seq<ITColumn>>>
    decreases b.len() - pos,
{
    if rows.len() == total {
        Some(rows)
    } else if pos < 0 || pos >= b.len() {
        None
    } else if b[pos] == 0 {
        it_unpack(b, pos + 1, it_unpack_next_row(st), rows.push(it_unpack_emit(st)), total)
    } else {
        match it_unpack_cell(b, pos, st) {
            None => None,
            Some((p, s)) => it_unpack(b, p, s, rows, total),
        }
    }
}

/// The cells of a pattern's rows.
pub open spec fn it_rows_view(rows: Seq<Vec<ITColumn>>) -> Seq<Seq<ITColumn>> {
    Seq::new(rows.len(), |i: int| rows[i]@)
}

/// Once more rows are held than are asked for, no amount of data completes
/// the pattern.
proof fn lemma_unpack_overfull(
    b: Seq<u8>,
    pos: int,
    st: ITUnpackState,
    rows: Seq<Seq<ITColumn>>,
    total: int,
)
    requires
        rows.len() > total,
    ensures
        it_unpack(b, pos, st, rows, total) is None,
    decreases b.len() - pos,
{
    if pos < 0 || pos >= b.len() {
    } else if b[pos] == 0 {
        lemma_unpack_overfull(
            b,
            pos + 1,
            it_unpack_next_row(st),
            rows.push(it_unpack_emit(st)),
            total,
        );
    } else {
        match it_unpack_cell(b, pos, st) {
            None => {},
            Some((p, s)) => {
                lemma_unpack_overfull(b, p, s, rows, total);
            },
        }
    }
}

/// Whether every row of `rows` has at most 64 cells.
pub open spec fn it_rows_within(rows: Seq<Seq<ITColumn>>) -> bool {
    forall|r: int| 0 <= r < rows.len() ==> (#[trigger] rows[r]).len() <= 64
}

/// The unpacker never emits a row of more than 64 cells.
proof fn lemma_unpack_widths(
    b: Seq<u8>,
    pos: int,
    st: ITUnpackState,
    rows: Seq<Seq<ITColumn>>,
    total: int,
)
    requires
        st.row.len() == 64,
        0 <= st.width <= 64,
        it_rows_within(rows),
    ensures
        it_unpack(b, pos, st, rows, total) matches Some(out) ==> it_rows_within(out),
    decreases b.len() - pos,
{
    if rows.len() == total {
    } else if pos < 0 || pos >= b.len() {
    } else if b[pos] == 0 {
        let more = rows.push(it_unpack_emit(st));
        assert forall|r: int| 0 <= r < more.len() implies (#[trigger] more[r]).len() <= 64 by {
            if r < rows.len() {
                assert(more[r] == rows[r]);
            }
        }
        lemma_unpack_widths(b, pos + 1, it_unpack_next_row(st), more, total);
    } else {
        match it_unpack_cell(b, pos, st) {
            None => {},
            Some((p, s)) => {
                lemma_unpack_widths(b, p, s, rows, total);
            },
        }
    }
}

/// No row of a pattern has more than 64 cells.
pub proof fn lemma_it_pattern_widths(b: Seq<u8>, o: int)
    ensures
        it_pattern_rows(b, o) matches Some(rows) ==> it_rows_within(rows),
{
    if o == 0 {
    } else if fits(b, o, 8) && fits(b, o + 8, u16_at(b, o)) {
        lemma_unpack_widths(
            b.subrange(o + 8, o + 8 + u16_at(b, o)),
            0,
            it_unpack_start(),
            Seq::empty(),
            u16_at(b, o + 2),
        );
    }
}

/// The channels that the channel bytes of each row address: one set for
/// each row that the unpacker emits from `pos` on, after the sets in
/// `done`, with `touched` the channels addressed so far in the row being
/// assembled and `held` the number of rows held so far.
pub open spec fn it_unpack_channels(
    b: Seq<u8>,
    pos: int,
    st: ITUnpackState,
    touched: Set<int>,
    done: Seq<Set<int>>,
    held: int,
    total: int,
) -> Seq<Set<int>>
    decreases b.len() - pos,
{
    if held == total || pos < 0 || pos >= b.len() {
        done
    } else if b[pos] == 0 {
        it_unpack_channels(
            b,
            pos + 1,
            it_unpack_next_row(st),
            Set::empty(),
            done.push(touched),
            held + 1,
            total,
        )
    } else {
        match it_unpack_cell(b, pos, st) {
            None => done,
            Some((p, s)) => it_unpack_channels(
                b,
                p,
                s,
                touched.insert(it_channel_of(b[pos])),
                done,
                held,
                total,
            ),
        }
    }
}

/// Whether every cell of `rows` outside the channels that `channels` names
/// for its row is empty.
pub open spec fn it_rows_sparse(rows: Seq<Seq<ITColumn>>, channels: Seq<Set<int>>) -> bool {
    &&& channels.len() == rows.len()
    &&& forall|r: int, c: int|
        0 <= r < rows.len() && 0 <= c < rows[r].len() && !channels[r].contains(c) ==> (
        #[trigger] rows[r][c]) == it_empty_column()
}

/// A cell of an unpacked row differs from the empty cell only where a
/// channel byte of that row addressed its channel.
proof fn lemma_unpack_sparse(
    b: Seq<u8>,
    pos: int,
    st: ITUnpackState,
    touched: Set<int>,
    rows: Seq<Seq<ITColumn>>,
    done: Seq<Set<int>>,
    total: int,
)
    requires
        st.row.len() == 64,
        0 <= st.width <= 64,
        forall|c: int| 0 <= c < 64 && !touched.contains(c) ==> st.row[c] == it_empty_column(),
        it_rows_sparse(rows, done),
    ensures
        it_unpack(b, pos, st, rows, total) matches Some(out) ==> it_rows_sparse(
            out,
            it_unpack_channels(b, pos, st, touched, done, rows.len() as int, total),
        ),
    decreases b.len() - pos,
{
    if rows.len() == total {
    } else if pos < 0 || pos >= b.len() {
    } else if b[pos] == 0 {
        let row = it_unpack_emit(st);
        let more = rows.push(row);
        let sets = done.push(touched);
        assert forall|r: int, c: int|
            0 <= r < more.len() && 0 <= c < more[r].len() && !sets[r].contains(c) implies (
            #[trigger] more[r][c]) == it_empty_column() by {
            if r < rows.len() {
                assert(more[r] == rows[r] && sets[r] == done[r]);
            } else {
                assert(more[r][c] == st.row[c]);
            }
        }
        lemma_unpack_sparse(b, pos + 1, it_unpack_next_row(st), Set::empty(), more, sets, total);
    } else {
        match it_unpack_cell(b, pos, st) {
            None => {},
            Some((p, s)) => {
                let ch = it_channel_of(b[pos]);
                assert(0 <= ch < 64);
                lemma_unpack_sparse(b, p, s, touched.insert(ch), rows, done, total);
            },
        }
    }
}

/// Of the rows that the unpacker makes of packed data, a cell differs from
/// the empty cell only where a channel byte of its row addressed its
/// channel.
pub proof fn lemma_it_unpacked_rows_sparse(b: Seq<u8>, total: int)
    ensures
        it_unpack(b, 0, it_unpack_start(), Seq::empty(), total) matches Some(rows)
            ==> it_rows_sparse(
            rows,
            it_unpack_channels(b, 0, it_unpack_start(), Set::empty(), Seq::empty(), 0, total),
        ),
{
    lemma_unpack_sparse(
        b,
        0,
        it_unpack_start(),
        Set::empty(),
        Seq::empty(),
        Seq::empty(),
        total,
    );
}

/// A fresh row of 64 empty cells.
fn blank_row() -> (r: Vec<ITColumn>)
    ensures
        r@ == it_blank_row(),
{
    let mut r: Vec<ITColumn> = Vec::new();
    let mut i: usize = 0;
    while i < 64
        invariant
            i <= 64,
            r@.len() == i,
            forall|j: int| 0 <= j < i ==> r@[j] == it_empty_column(),
        decreases 64 - i,
    {
        r.push(ITColumn::default());
        i += 1;
    }
    assert(r@ =~= it_blank_row());
    r
}

/// The unpacker's memories and the row it is assembling.
struct ITUnpacker {
    masks: [u8; 64],
    last_notes: [u8; 64],
    last_instruments: [u8; 64],
    last_volumes: [u8; 64],
    last_fx: [u8; 64],
    last_fxvalues: [u8; 64],
    row: Vec<ITColumn>,
    max_channel: usize,
}

impl ITUnpacker {
    spec fn state(&self) -> ITUnpackState {
        ITUnpackState {
            masks: self.masks@,
            notes: self.last_notes@,
            instruments: self.last_instruments@,
            volumes: self.last_volumes@,
            effects: self.last_fx@,
            values: self.last_fxvalues@,
            row: self.row@,
            width: self.max_channel as int,
        }
    }

    spec fn wf(&self) -> bool {
        self.row@.len() == 64 && self.max_channel <= 64
    }

    fn new() -> (r: Self)
        ensures
            r.wf(),
            r.state() == it_unpack_start(),
    {
        let r = ITUnpacker {
            masks: [0u8; 64],
            last_notes: [119u8; 64],
            last_instruments: [0u8; 64],
            last_volumes: [255u8; 64],
            last_fx: [0u8; 64],
            last_fxvalues: [0u8; 64],
            row: blank_row(),
            max_channel: 0,
        };
        proof {
            let st = r.state();
            assert(st.masks =~= it_unpack_start().masks);
            assert(st.notes =~= it_unpack_start().notes);
            assert(st.instruments =~= it_unpack_start().instruments);
            assert(st.volumes =~= it_unpack_start().volumes);
            assert(st.effects =~= it_unpack_start().effects);
            assert(st.values =~= it_unpack_start().values);
        }
        r
    }

    /// Ends the row: hands out its cells up to the widest channel touched
    /// and starts a fresh one.
    fn end_row(&mut self) -> (done: Vec<ITColumn>)
        requires
            old(self).wf(),
        ensures
            final(self).wf(),
            done@ == it_unpack_emit(old(self).state()),
            final(self).state() == it_unpack_next_row(old(self).state()),
    {
        let mut done = blank_row();
        std::mem::swap(&mut done, &mut self.row);
        done.truncate(self.max_channel);
        done
    }

    /// Unpacks the cell whose non-zero channel byte is at `pos`.
    fn cell(&mut self, b: &[u8], pos: usize) -> (r: Option<usize>)
        requires
            old(self).wf(),
            pos < b@.len(),
            b@[pos as int] != 0,
        ensures
            final(self).wf(),
            match r {
                Some(p) => pos < p <= b@.len() && it_unpack_cell(b@, pos as int, old(self).state())
                    == Some((p as int, final(self).state())),
                None => it_unpack_cell(b@, pos as int, old(self).state()) is None,
            },
    {
        let len = b.len();
        let cv = b[pos];
        let ch = ((cv - 1) % 64) as usize;
        let p_mask = pos + 1;
        let fresh_mask = cv >= 128;
        if fresh_mask && p_mask >= len {
            return None;
        }
        let p_note = if fresh_mask {
            p_mask + 1
        } else {
            p_mask
        };
        let mask = if fresh_mask {
            b[p_mask]
        } else {
            self.masks[ch]
        };
        let has_note = mask & 1 != 0;
        let has_ins = mask & 2 != 0;
        let has_vol = mask & 4 != 0;
        let has_fx = mask & 8 != 0;
        let need: usize = (if has_note {
            1usize
        } else {
            0
        }) + (if has_ins {
            1
        } else {
            0
        }) + (if has_vol {
            1
        } else {
            0
        }) + (if has_fx {
            2
        } else {
            0
        });
        if need > len - p_note {
            return None;
        }
        let p_ins = if has_note {
            p_note + 1
        } else {
            p_note
        };
        let p_vol = if has_ins {
            p_ins + 1
        } else {
            p_ins
        };
        let p_fx = if has_vol {
            p_vol + 1
        } else {
            p_vol
        };
        let p_end = if has_fx {
            p_fx + 2
        } else {
            p_fx
        };
        let mut column = ITColumn::default();
        self.masks[ch] = mask;
        if has_note {
            column.note = b[p_note];
            self.last_notes[ch] = column.note;
        } else if mask & 16 != 0 {
            column.note = self.last_notes[ch];
        }
        if has_ins {
            column.instrument = b[p_ins];
            self.last_instruments[ch] = column.instrument;
        } else if mask & 32 != 0 {
            column.instrument = self.last_instruments[ch];
        }
        if has_vol {
            column.vol = b[p_vol];
            self.last_volumes[ch] = column.vol;
        } else if mask & 64 != 0 {
            column.vol = self.last_volumes[ch];
        }
        if has_fx {
            column.effect = b[p_fx];
            column.effect_value = b[p_fx + 1];
            self.last_fx[ch] = column.effect;
            self.last_fxvalues[ch] = column.effect_value;
        } else if mask & 128 != 0 {
            column.effect = self.last_fx[ch];
            column.effect_value = self.last_fxvalues[ch];
        }
        if self.max_channel < ch + 1 {
            self.max_channel = ch + 1;
        }
        self.row[ch] = column;
        Some(p_end)
    }
}

impl ITPattern {
    /// Unpacks rows from `pattern_bytes` onto the end of `self.rows` until
    /// the pattern holds `self.rows_amount` rows. Where the data ends before
    /// that, the pattern is left as it was and the error is `Truncated`.
    pub fn parse_packed_bytes(&mut self, pattern_bytes: &[u8]) -> (r: Result<(), LoadError>)
        ensures
            final(self).length == old(self).length,
            final(self).rows_amount == old(self).rows_amount,
            final(self)._x == old(self)._x,
            match r {
                Ok(()) => it_unpack(
                    pattern_bytes@,
                    0,
                    it_unpack_start(),
                    it_rows_view(old(self).rows@),
                    old(self).rows_amount as int,
                ) == Some(it_rows_view(final(self).rows@)),
                Err(e) => {
                    &&& e == LoadError::Truncated
                    &&& it_unpack(
                        pattern_bytes@,
                        0,
                        it_unpack_start(),
                        it_rows_view(old(self).rows@),
                        old(self).rows_amount as int,
                    ) is None
                    &&& final(self).rows == old(self).rows
                },
            },
    {
        let len = pattern_bytes.len();
        let base = self.rows.len();
        let total = self.rows_amount as usize;
        let ghost held = it_rows_view(self.rows@);
        if base > total {
            proof {
                lemma_unpack_overfull(pattern_bytes@, 0, it_unpack_start(), held, total as int);
            }
            return Err(LoadError::Truncated);
        }
        let target: usize = total - base;
        let mut unpacker = ITUnpacker::new();
        let mut fresh: Vec<Vec<ITColumn>> = Vec::new();
        let mut pos: usize = 0;
        assert(held + it_rows_view(fresh@) =~= held);
        while fresh.len() != target
            invariant
                pattern_bytes@.len() == len,
                pos <= len,
                unpacker.wf(),
                target == total - base,
                held.len() == base,
                *self == *old(self),
                held == it_rows_view(old(self).rows@),
                total == old(self).rows_amount,
                fresh@.len() <= pos,
                it_unpack(pattern_bytes@, 0, it_unpack_start(), held, total as int) == it_unpack(
                    pattern_bytes@,
                    pos as int,
                    unpacker.state(),
                    held + it_rows_view(fresh@),
                    total as int,
                ),
            decreases len - pos,
        {
            let ghost acc = held + it_rows_view(fresh@);
            let ghost st = unpacker.state();
            assert(acc.len() != total);
            if pos >= len {
                return Err(LoadError::Truncated);
            }
            if pattern_bytes[pos] == 0 {
                let done = unpacker.end_row();
                fresh.push(done);
                pos += 1;
                assert(held + it_rows_view(fresh@) =~= acc.push(it_unpack_emit(st)));
            } else {
                match unpacker.cell(pattern_bytes, pos) {
                    Some(p) => {
                        pos = p;
                    },
                    None => {
                        return Err(LoadError::Truncated);
                    },
                }
            }
        }
        assert(it_rows_view(self.rows@ + fresh@) =~= held + it_rows_view(fresh@));
        self.rows.append(&mut fresh);
        Ok(())
    }
}

// ---------------------------------------------------------------------------
// Patterns
// ---------------------------------------------------------------------------

/// The rows of a pattern that the file leaves out: 64 rows without cells.
pub open spec fn it_empty_pattern_rows() -> Seq<Seq<ITColumn>> {
    Seq::new(IT_EMPTY_PATTERN_ROWS as nat, |i: int| Seq::<ITColumn>::empty())
}

/// The rows of the pattern whose header is at `o`, or `None` where the file
/// ends inside its header, inside its packed data, or the packed data ends
/// before all rows are there. Offset 0 stands for a pattern left out.
pub open spec fn it_pattern_rows(b: Seq<u8>, o: int) -> Option<Seq<Seq<ITColumn>>> {
    if o == 0 {
        Some(it_empty_pattern_rows())
    } else if !fits(b, o, 8) {
        None
    } else if !fits(b, o + 8, u16_at(b, o)) {
        None
    } else {
        it_unpack(
            b.subrange(o + 8, o + 8 + u16_at(b, o)),
            0,
            it_unpack_start(),
            Seq::empty(),
            u16_at(b, o + 2),
        )
    }
}

impl ITPattern {
    /// Whether `self` is the pattern whose header is stored at `o`.
    pub open spec fn decoded_from(&self, b: Seq<u8>, o: int) -> bool {
        &&& Some(it_rows_view(self.rows@)) == it_pattern_rows(b, o)
        &&& if o == 0 {
            &&& self.length == 0
            &&& self.rows_amount == IT_EMPTY_PATTERN_ROWS
            &&& self._x@ == zeros(4)
        } else {
            &&& self.length == u16_at(b, o)
            &&& self.rows_amount == u16_at(b, o + 2)
            &&& self._x@ == b.subrange(o + 4, o + 8)
        }
    }
}

/// The pattern that a file leaves out.
fn empty_pattern() -> (r: ITPattern)
    ensures
        r.length == 0,
        r.rows_amount == IT_EMPTY_PATTERN_ROWS,
        r._x@ == zeros(4),
        it_rows_view(r.rows@) == it_empty_pattern_rows(),
{
    let mut rows: Vec<Vec<ITColumn>> = Vec::new();
    let mut i: u16 = 0;
    while i < IT_EMPTY_PATTERN_ROWS
        invariant
            i <= IT_EMPTY_PATTERN_ROWS,
            rows@.len() == i,
            forall|j: int| 0 <= j < i ==> (#[trigger] rows@[j])@ == Seq::<ITColumn>::empty(),
        decreases IT_EMPTY_PATTERN_ROWS - i,
    {
        rows.push(Vec::new());
        i += 1;
    }
    let r = ITPattern { length: 0, rows_amount: IT_EMPTY_PATTERN_ROWS, _x: [0u8; 4], rows };
    assert(r._x@ =~= zeros(4));
    assert(it_rows_view(r.rows@) =~= it_empty_pattern_rows());
    r
}

/// Reads the pattern whose header is stored at `o`, or reports that the file
/// ends inside it.
fn read_pattern(b: &[u8], o: usize) -> (r: Option<ITPattern>)
    ensures
        r is Some <==> it_pattern_rows(b@, o as int) is Some,
        r matches Some(p) ==> p.decoded_from(b@, o as int),
{
    if o == 0 {
        return Some(empty_pattern());
    }
    if !in_bounds(b, o, 8) {
        return None;
    }
    let length = le_u16(b, o);
    let rows_amount = le_u16(b, o + 2);
    if !in_bounds(b, o + 8, length as usize) {
        return None;
    }
    let mut pattern = ITPattern {
        length,
        rows_amount,
        _x: array_at::<4>(b, o + 4),
        rows: Vec::new(),
    };
    assert(it_rows_view(pattern.rows@) =~= Seq::empty());
    let packed = vstd::slice::slice_subrange(b, o + 8, o + 8 + length as usize);
    match pattern.parse_packed_bytes(packed) {
        Ok(()) => Some(pattern),
        Err(_) => None,
    }
}

// ---------------------------------------------------------------------------
// The file as a whole
// ---------------------------------------------------------------------------

/// Whether the file starts with "IMPM".
pub open spec fn it_magic(b: Seq<u8>) -> bool {
    b[0] == 0x49 && b[1] == 0x4D && b[2] == 0x50 && b[3] == 0x4D
}

/// Number of orders that the header declares.
pub open spec fn it_order_amount(b: Seq<u8>) -> int {
    u16_at(b, 0x20)
}

/// Number of instruments that the header declares.
pub open spec fn it_instrument_amount(b: Seq<u8>) -> int {
    u16_at(b, 0x22)
}

/// Number of samples that the header declares.
pub open spec fn it_sample_amount(b: Seq<u8>) -> int {
    u16_at(b, 0x24)
}

/// Number of patterns that the header declares.
pub open spec fn it_pattern_amount(b: Seq<u8>) -> int {
    u16_at(b, 0x26)
}

/// Where the table of instrument offsets starts: after the order list.
pub open spec fn it_instrument_table(b: Seq<u8>) -> int {
    IT_HEADER_LEN + it_order_amount(b)
}

/// Where the table of sample offsets starts.
pub open spec fn it_sample_table(b: Seq<u8>) -> int {
    it_instrument_table(b) + 4 * it_instrument_amount(b)
}

/// Where the table of pattern offsets starts.
pub open spec fn it_pattern_table(b: Seq<u8>) -> int {
    it_sample_table(b) + 4 * it_sample_amount(b)
}

/// Where the three tables end.
pub open spec fn it_tables_end(b: Seq<u8>) -> int {
    it_pattern_table(b) + 4 * it_pattern_amount(b)
}

/// Offset of instrument `i`.
pub open spec fn it_instrument_offset(b: Seq<u8>, i: int) -> int {
    u32_at(b, it_instrument_table(b) + 4 * i)
}

/// Offset of the header of sample `i`.
pub open spec fn it_sample_offset(b: Seq<u8>, i: int) -> int {
    u32_at(b, it_sample_table(b) + 4 * i)
}

/// Offset of the header of pattern `i`.
pub open spec fn it_pattern_offset(b: Seq<u8>, i: int) -> int {
    u32_at(b, it_pattern_table(b) + 4 * i)
}

/// Why the header, the order list or the offset tables cannot be read, if
/// they cannot. The checks are made in file order, and the first that fails
/// decides.
pub open spec fn it_header_error(b: Seq<u8>) -> Option<LoadError> {
    if b.len() < 4 {
        Some(LoadError::Truncated)
    } else if !it_magic(b) {
        Some(LoadError::InvalidSignature)
    } else if b.len() < it_instrument_table(b) || b.len() < IT_HEADER_LEN {
        Some(LoadError::Truncated)
    } else if 4 * it_instrument_amount(b) > u16::MAX {
        Some(LoadError::OutOfRange)
    } else if b.len() < it_sample_table(b) {
        Some(LoadError::Truncated)
    } else if 4 * it_sample_amount(b) > u16::MAX {
        Some(LoadError::OutOfRange)
    } else if b.len() < it_pattern_table(b) {
        Some(LoadError::Truncated)
    } else if 4 * it_pattern_amount(b) > u16::MAX {
        Some(LoadError::OutOfRange)
    } else if b.len() < it_tables_end(b) {
        Some(LoadError::Truncated)
    } else {
        None
    }
}

/// Whether some instrument reaches past the end of the file.
pub open spec fn it_instruments_truncated(b: Seq<u8>) -> bool {
    exists|i: int|
        0 <= i < it_instrument_amount(b) && !it_instrument_fits(
            b,
            #[trigger] it_instrument_offset(b, i),
        )
}

/// The error of the first sample from number `i` on that has one.
pub open spec fn it_samples_error(b: Seq<u8>, i: int) -> Option<LoadError>
    decreases it_sample_amount(b) - i,
{
    if i < 0 || i >= it_sample_amount(b) {
        None
    } else {
        match it_sample_error(b, it_sample_offset(b, i)) {
            Some(e) => Some(e),
            None => it_samples_error(b, i + 1),
        }
    }
}

/// Whether some pattern reaches past the end of the file or of its own
/// packed data.
pub open spec fn it_patterns_truncated(b: Seq<u8>) -> bool {
    exists|i: int|
        0 <= i < it_pattern_amount(b) && (#[trigger] it_pattern_rows(
            b,
            it_pattern_offset(b, i),
        )) is None
}

/// Why `b` is not a decodable module, if it is not. The file is read in the
/// order header, instruments, samples, patterns, and the first error met
/// decides.
pub open spec fn it_error(b: Seq<u8>) -> Option<LoadError> {
    if it_header_error(b) is Some {
        it_header_error(b)
    } else if it_instruments_truncated(b) {
        Some(LoadError::Truncated)
    } else if it_samples_error(b, 0) is Some {
        it_samples_error(b, 0)
    } else if it_patterns_truncated(b) {
        Some(LoadError::Truncated)
    } else {
        None
    }
}

impl ITModule {
    /// Whether the header fields, the order list and the offset tables of
    /// `self` are those stored in `b`.
    pub open spec fn header_from(&self, b: Seq<u8>) -> bool {
        &&& self._impm@ == b.subrange(0, 4)
        &&& self.song_name@ == b.subrange(4, 30)
        &&& self._pattern_highlight == u16_at(b, 0x1E)
        &&& self.order_amount == it_order_amount(b)
        &&& self.instrument_amount == it_instrument_amount(b)
        &&& self.sample_amount == it_sample_amount(b)
        &&& self.pattern_amount == it_pattern_amount(b)
        &&& self.tracker_id == u16_at(b, 0x28)
        &&& self.format_id == u16_at(b, 0x2A)
        &&& self.flags == u16_at(b, 0x2C)
        &&& self.special == u16_at(b, 0x2E)
        &&& self.global_volume == b[0x30]
        &&& self.mixing_volume == b[0x31]
        &&& self.initial_speed == b[0x32]
        &&& self.initial_tempo == b[0x33]
        &&& self.separation == b[0x34]
        &&& self.pitch_wheel_depth == b[0x35]
        &&& self.message_length == u16_at(b, 0x36)
        &&& self.message_offset == u32_at(b, 0x38)
        &&& self._reserved@ == b.subrange(0x3C, 0x40)
        &&& self.channel_pan@ == b.subrange(0x40, 0x80)
        &&& self.channel_volume@ == b.subrange(0x80, 0xC0)
        &&& self.orders@ == b.subrange(IT_HEADER_LEN as int, it_instrument_table(b))
        &&& self.instrument_offsets@.len() == it_instrument_amount(b)
        &&& forall|i: int|
            0 <= i < it_instrument_amount(b) ==> (#[trigger] self.instrument_offsets@[i])
                == it_instrument_offset(b, i)
        &&& self.sample_offsets@.len() == it_sample_amount(b)
        &&& forall|i: int|
            0 <= i < it_sample_amount(b) ==> (#[trigger] self.sample_offsets@[i])
                == it_sample_offset(b, i)
        &&& self.pattern_offsets@.len() == it_pattern_amount(b)
        &&& forall|i: int|
            0 <= i < it_pattern_amount(b) ==> (#[trigger] self.pattern_offsets@[i])
                == it_pattern_offset(b, i)
    }

    /// Whether `self` is the module stored in `b`: the header, and every
    /// instrument, sample and pattern that the offset tables point to.
    pub open spec fn decoded_from(&self, b: Seq<u8>) -> bool {
        &&& self.header_from(b)
        &&& self.instruments@.len() == it_instrument_amount(b)
        &&& forall|i: int|
            0 <= i < it_instrument_amount(b) ==> (#[trigger] self.instruments@[i]).decoded_from(
                b,
                it_instrument_offset(b, i),
            )
        &&& self.samples@.len() == it_sample_amount(b)
        &&& forall|i: int|
            0 <= i < it_sample_amount(b) ==> (#[trigger] self.samples@[i]).decoded_from(
                b,
                it_sample_offset(b, i),
            )
        &&& self.patterns@.len() == it_pattern_amount(b)
        &&& forall|i: int|
            0 <= i < it_pattern_amount(b) ==> (#[trigger] self.patterns@[i]).decoded_from(
                b,
                it_pattern_offset(b, i),
            )
    }
}

/// Reads `n` 32-bit offsets stored from `at` on.
fn read_offsets(b: &[u8], at: usize, n: usize) -> (r: Vec<u32>)
    requires
        fits(b@, at as int, 4 * n),
    ensures
        r@.len() == n,
        forall|i: int| 0 <= i < n ==> (#[trigger] r@[i]) == u32_at(b@, at + 4 * i),
{
    let len = b.len();
    let mut r: Vec<u32> = Vec::new();
    let mut i: usize = 0;
    while i < n
        invariant
            i <= n,
            b@.len() == len,
            fits(b@, at as int, 4 * n),
            r@.len() == i,
            forall|j: int| 0 <= j < i ==> (#[trigger] r@[j]) == u32_at(b@, at + 4 * j),
        decreases n - i,
    {
        r.push(le_u32(b, at + 4 * i));
        i += 1;
    }
    r
}

impl ITModule {
    /// Whether every field is zero and every list empty.
    pub open spec fn is_blank(&self) -> bool {
        &&& self._impm@ == zeros(4)
        &&& self.song_name@ == zeros(26)
        &&& self._pattern_highlight == 0
        &&& self.order_amount == 0
        &&& self.instrument_amount == 0
        &&& self.sample_amount == 0
        &&& self.pattern_amount == 0
        &&& self.tracker_id == 0
        &&& self.format_id == 0
        &&& self.flags == 0
        &&& self.special == 0
        &&& self.global_volume == 0
        &&& self.mixing_volume == 0
        &&& self.initial_speed == 0
        &&& self.initial_tempo == 0
        &&& self.separation == 0
        &&& self.pitch_wheel_depth == 0
        &&& self.message_length == 0
        &&& self.message_offset == 0
        &&& self._reserved@ == zeros(4)
        &&& self.channel_pan@ == zeros(64)
        &&& self.channel_volume@ == zeros(64)
        &&& self.orders@.len() == 0
        &&& self.instrument_offsets@.len() == 0
        &&& self.sample_offsets@.len() == 0
        &&& self.pattern_offsets@.len() == 0
        &&& self.instruments@.len() == 0
        &&& self.samples@.len() == 0
        &&& self.patterns@.len() == 0
    }
}

impl Default for ITModule {
    fn default() -> (r: Self)
        ensures
            r.is_blank(),
    {
        let r = ITModule {
            _impm: [0; 4],
            song_name: [0; 26],
            _pattern_highlight: 0,
            order_amount: 0,
            instrument_amount: 0,
            sample_amount: 0,
            pattern_amount: 0,
            tracker_id: 0,
            format_id: 0,
            flags: 0,
            special: 0,
            global_volume: 0,
            mixing_volume: 0,
            initial_speed: 0,
            initial_tempo: 0,
            separation: 0,
            pitch_wheel_depth: 0,
            message_length: 0,
            message_offset: 0,
            _reserved: [0; 4],
            channel_pan: [0; 64],
            channel_volume: [0; 64],
            orders: Vec::new(),
            instrument_offsets: Vec::new(),
            sample_offsets: Vec::new(),
            pattern_offsets: Vec::new(),
            instruments: Vec::new(),
            samples: Vec::new(),
            patterns: Vec::new(),
        };
        assert(r._impm@ =~= zeros(4));
        assert(r.song_name@ =~= zeros(26));
        assert(r._reserved@ =~= zeros(4));
        assert(r.channel_pan@ =~= zeros(64));
        assert(r.channel_volume@ =~= zeros(64));
        r
    }
}

/// Reads the header, the order list and the three offset tables.
fn read_header(b: &[u8]) -> (r: Result<ITModule, LoadError>)
    ensures
        match r {
            Ok(m) => {
                &&& it_header_error(b@) is None
                &&& m.header_from(b@)
                &&& m.instruments@.len() == 0
                &&& m.samples@.len() == 0
                &&& m.patterns@.len() == 0
            },
            Err(e) => it_header_error(b@) == Some(e),
        },
{
    if !in_bounds(b, 0, 4) {
        return Err(LoadError::Truncated);
    }
    if !(b[0] == 0x49 && b[1] == 0x4D && b[2] == 0x50 && b[3] == 0x4D) {
        return Err(LoadError::InvalidSignature);
    }
    if !in_bounds(b, 0, IT_HEADER_LEN) {
        return Err(LoadError::Truncated);
    }
    let order_amount = le_u16(b, 0x20);
    let instrument_amount = le_u16(b, 0x22);
    let sample_amount = le_u16(b, 0x24);
    let pattern_amount = le_u16(b, 0x26);
    if !in_bounds(b, IT_HEADER_LEN, order_amount as usize) {
        return Err(LoadError::Truncated);
    }
    let instrument_table = IT_HEADER_LEN + order_amount as usize;
    if instrument_amount > u16::MAX / 4 {
        return Err(LoadError::OutOfRange);
    }
    if !in_bounds(b, instrument_table, 4 * instrument_amount as usize) {
        return Err(LoadError::Truncated);
    }
    let sample_table = instrument_table + 4 * instrument_amount as usize;
    if sample_amount > u16::MAX / 4 {
        return Err(LoadError::OutOfRange);
    }
    if !in_bounds(b, sample_table, 4 * sample_amount as usize) {
        return Err(LoadError::Truncated);
    }
    let pattern_table = sample_table + 4 * sample_amount as usize;
    if pattern_amount > u16::MAX / 4 {
        return Err(LoadError::OutOfRange);
    }
    if !in_bounds(b, pattern_table, 4 * pattern_amount as usize) {
        return Err(LoadError::Truncated);
    }
    Ok(
        ITModule {
            _impm: array_at::<4>(b, 0),
            song_name: array_at::<26>(b, 4),
            _pattern_highlight: le_u16(b, 0x1E),
            order_amount,
            instrument_amount,
            sample_amount,
            pattern_amount,
            tracker_id: le_u16(b, 0x28),
            format_id: le_u16(b, 0x2A),
            flags: le_u16(b, 0x2C),
            special: le_u16(b, 0x2E),
            global_volume: b[0x30],
            mixing_volume: b[0x31],
            initial_speed: b[0x32],
            initial_tempo: b[0x33],
            separation: b[0x34],
            pitch_wheel_depth: b[0x35],
            message_length: le_u16(b, 0x36),
            message_offset: le_u32(b, 0x38),
            _reserved: array_at::<4>(b, 0x3C),
            channel_pan: array_at::<64>(b, 0x40),
            channel_volume: array_at::<64>(b, 0x80),
            orders: vec_at(b, IT_HEADER_LEN, order_amount as usize),
            instrument_offsets: read_offsets(b, instrument_table, instrument_amount as usize),
            sample_offsets: read_offsets(b, sample_table, sample_amount as usize),
            pattern_offsets: read_offsets(b, pattern_table, pattern_amount as usize),
            instruments: Vec::new(),
            samples: Vec::new(),
            patterns: Vec::new(),
        },
    )
}

impl ITModule {
    /// Decodes an Impulse Tracker module from the bytes of its file.
    ///
    /// Succeeds exactly when `it_error` finds nothing wrong, and then every
    /// field of the result is the one stored in the file. Sample data that
    /// runs past the end of the file yields a shorter sample, not an error.
    pub fn load(bytes: &[u8]) -> (r: Result<ITModule, LoadError>)
        ensures
            match r {
                Ok(m) => it_error(bytes@) is None && m.decoded_from(bytes@),
                Err(e) => it_error(bytes@) == Some(e),
            },
    {
        let mut module = match read_header(bytes) {
            Ok(m) => m,
            Err(e) => { return Err(e); },
        };
        let ghost b = bytes@;

        let mut instruments: Vec<ITInstrument> = Vec::new();
        let mut i: usize = 0;
        while i < module.instrument_offsets.len()
            invariant
                b == bytes@,
                it_header_error(b) is None,
                module.header_from(b),
                i <= module.instrument_offsets@.len(),
                instruments@.len() == i,
                forall|j: int|
                    0 <= j < i ==> it_instrument_fits(b, #[trigger] it_instrument_offset(b, j)),
                forall|j: int|
                    0 <= j < i ==> (#[trigger] instruments@[j]).decoded_from(
                        b,
                        it_instrument_offset(b, j),
                    ),
            decreases module.instrument_offsets@.len() - i,
        {
            match read_instrument(bytes, module.instrument_offsets[i] as usize) {
                Some(ins) => instruments.push(ins),
                None => {
                    assert(!it_instrument_fits(b, it_instrument_offset(b, i as int)));
                    return Err(LoadError::Truncated);
                },
            }
            i += 1;
        }
        assert(!it_instruments_truncated(b));

        let mut samples: Vec<ITSample> = Vec::new();
        let mut i: usize = 0;
        while i < module.sample_offsets.len()
            invariant
                b == bytes@,
                it_header_error(b) is None,
                !it_instruments_truncated(b),
                module.header_from(b),
                i <= module.sample_offsets@.len(),
                samples@.len() == i,
                it_samples_error(b, 0) == it_samples_error(b, i as int),
                forall|j: int|
                    0 <= j < i ==> (#[trigger] samples@[j]).decoded_from(
                        b,
                        it_sample_offset(b, j),
                    ),
            decreases module.sample_offsets@.len() - i,
        {
            match read_sample(bytes, module.sample_offsets[i] as usize) {
                Ok(smp) => samples.push(smp),
                Err(e) => {
                    return Err(e);
                },
            }
            i += 1;
        }

        let mut patterns: Vec<ITPattern> = Vec::new();
        let mut i: usize = 0;
        while i < module.pattern_offsets.len()
            invariant
                b == bytes@,
                it_header_error(b) is None,
                !it_instruments_truncated(b),
                it_samples_error(b, 0) is None,
                module.header_from(b),
                i <= module.pattern_offsets@.len(),
                patterns@.len() == i,
                forall|j: int|
                    0 <= j < i ==> (#[trigger] it_pattern_rows(b, it_pattern_offset(b, j))) is Some,
                forall|j: int|
                    0 <= j < i ==> (#[trigger] patterns@[j]).decoded_from(
                        b,
                        it_pattern_offset(b, j),
                    ),
            decreases module.pattern_offsets@.len() - i,
        {
            match read_pattern(bytes, module.pattern_offsets[i] as usize) {
                Some(pat) => patterns.push(pat),
                None => {
                    assert(it_pattern_rows(b, it_pattern_offset(b, i as int)) is None);
                    return Err(LoadError::Truncated);
                },
            }
            i += 1;
        }
        assert(!it_patterns_truncated(b));

        module.instruments = instruments;
        module.samples = samples;
        module.patterns = patterns;
        Ok(module)
    }
}

// ---------------------------------------------------------------------------
// Canonical form
// ---------------------------------------------------------------------------

/// Header flag: the module plays instruments, not bare samples.
pub const IT_FLAG_INSTRUMENTS: u16 = 0b100;

/// Header flag: pitch slides are linear in semitones.
pub const IT_FLAG_LINEAR_SLIDES: u16 = 0b1000;

/// The loop that a sample's flags ask for.
pub open spec fn it_loop_kind(flags: u8) -> LoopType {
    let bits = flags & (IT_SAMPLE_LOOP | IT_SAMPLE_PINGPONG);
    if bits == IT_SAMPLE_LOOP {
        LoopType::Forward
    } else if bits == IT_SAMPLE_LOOP | IT_SAMPLE_PINGPONG {
        LoopType::PingPong
    } else {
        LoopType::Off
    }
}

/// The meaning of a stored note byte.
pub open spec fn it_note(n: u8) -> Note {
    if n == 120 {
        Note::Empty
    } else if n == 255 {
        Note::Off
    } else if n == 254 {
        Note::Cut
    } else if n > 120 {
        Note::Fade
    } else {
        Note::On(n)
    }
}

/// The meaning of a stored cell in a module of `samples` samples.
pub open spec fn it_column(c: ITColumn, samples: nat) -> Column {
    Column {
        note: it_note(c.note),
        instrument: held_instrument(it_note(c.note), c.instrument, samples),
        vol: volume_column(c.vol),
        effect: lettered_effect(c.effect, c.effect_value, true),
    }
}

impl ITSample {
    /// Whether `s` is this sample in canonical form: the loop held inside
    /// the audio, and switched off where nothing of it is left.
    pub open spec fn canonical(&self, s: Sample) -> bool {
        &&& s.base_frequency == self.c5_speed
        &&& s.loop_type == effective_loop(
            it_loop_kind(self.flags),
            self.loop_begin,
            self.loop_end,
            self.audio@.len(),
        )
        &&& s.loop_start == self.loop_begin
        &&& s.loop_end == clamped_loop_end(self.loop_end, self.audio@.len())
        &&& s.default_volume == self.volume
        &&& s.global_volume == self.global_volume
        &&& s.audio@ == self.audio@
    }
}

/// The width of the widest of the stored rows.
pub open spec fn it_width(rows: Seq<Vec<ITColumn>>) -> nat
    decreases rows.len(),
{
    if rows.len() == 0 {
        0
    } else {
        let rest = it_width(rows.drop_last());
        if rows.last()@.len() > rest {
            rows.last()@.len()
        } else {
            rest
        }
    }
}

/// The canonical cell for channel `c` of a stored row in a module of
/// `samples` samples: the meaning of the stored cell, or the empty cell
/// where the stored row ends before that channel.
pub open spec fn it_cell(row: Seq<ITColumn>, c: int, samples: nat) -> Column {
    if c < row.len() {
        it_column(row[c], samples)
    } else {
        empty_column()
    }
}

impl ITPattern {
    /// Whether `p` is this pattern in canonical form in a module of
    /// `samples` samples: as many rows, every one as wide as the widest
    /// stored row, each cell given its meaning.
    pub open spec fn canonical(&self, p: Pattern, samples: nat) -> bool {
        &&& p@.len() == self.rows@.len()
        &&& forall|r: int| 0 <= r < p@.len() ==> (#[trigger] p@[r])@.len() == it_width(self.rows@)
        &&& forall|r: int, c: int|
            0 <= r < p@.len() && 0 <= c < p@[r]@.len() ==> (#[trigger] p@[r]@[c]) == it_cell(
                self.rows@[r]@,
                c,
                samples,
            )
    }
}

/// No stored row is wider than the widest.
pub proof fn lemma_it_width_bounds(rows: Seq<Vec<ITColumn>>, r: int)
    requires
        0 <= r < rows.len(),
    ensures
        rows[r]@.len() <= it_width(rows),
    decreases rows.len(),
{
    if r < rows.len() - 1 {
        lemma_it_width_bounds(rows.drop_last(), r);
    }
}

/// Where no stored row is wider than `n`, the widest is not.
pub proof fn lemma_it_width_within(rows: Seq<Vec<ITColumn>>, n: nat)
    requires
        forall|r: int| 0 <= r < rows.len() ==> (#[trigger] rows[r])@.len() <= n,
    ensures
        it_width(rows) <= n,
    decreases rows.len(),
{
    if rows.len() > 0 {
        assert forall|r: int| 0 <= r < rows.drop_last().len() implies (
        #[trigger] rows.drop_last()[r])@.len() <= n by {
            assert(rows.drop_last()[r] == rows[r]);
        }
        lemma_it_width_within(rows.drop_last(), n);
    }
}

/// Computes `it_width`.
fn widest_row(rows: &Vec<Vec<ITColumn>>) -> (r: usize)
    ensures
        r == it_width(rows@),
{
    let mut widest: usize = 0;
    let mut i: usize = 0;
    while i < rows.len()
        invariant
            i <= rows@.len(),
            widest == it_width(rows@.subrange(0, i as int)),
        decreases rows@.len() - i,
    {
        assert(rows@.subrange(0, i + 1).drop_last() =~= rows@.subrange(0, i as int));
        let here = rows[i].len();
        if here > widest {
            widest = here;
        }
        i += 1;
    }
    assert(rows@.subrange(0, i as int) =~= rows@);
    widest
}

/// Gives a stored cell its meaning.
fn convert_column(c: &ITColumn, samples: usize) -> (r: Column)
    ensures
        r == it_column(*c, samples as nat),
{
    let note = if c.note == 120 {
        Note::Empty
    } else if c.note == 255 {
        Note::Off
    } else if c.note == 254 {
        Note::Cut
    } else if c.note > 120 {
        Note::Fade
    } else {
        Note::On(c.note)
    };
    Column {
        note,
        instrument: hold_instrument(note, c.instrument, samples),
        vol: volume_column_of(c.vol),
        effect: lettered_effect_of(c.effect, c.effect_value, true),
    }
}

/// Gives each cell of a stored row its meaning, and fills the row with
/// empty cells up to `width`.
fn convert_row(row: &Vec<ITColumn>, width: usize, samples: usize) -> (r: Row)
    requires
        row@.len() <= width,
    ensures
        r@.len() == width,
        forall|c: int|
            0 <= c < width ==> (#[trigger] r@[c]) == it_cell(row@, c, samples as nat),
{
    let mut r: Row = Vec::with_capacity(width);
    let mut c: usize = 0;
    while c < width
        invariant
            c <= width,
            row@.len() <= width,
            r@.len() == c,
            forall|k: int| 0 <= k < c ==> (#[trigger] r@[k]) == it_cell(row@, k, samples as nat),
        decreases width - c,
    {
        if c < row.len() {
            r.push(convert_column(&row[c], samples));
        } else {
            r.push(Column::default());
        }
        c += 1;
    }
    r
}

/// Gives a stored pattern its canonical form.
fn convert_pattern(p: &ITPattern, samples: usize) -> (r: Pattern)
    ensures
        p.canonical(r, samples as nat),
{
    let width = widest_row(&p.rows);
    let mut r: Pattern = Vec::with_capacity(p.rows.len());
    let mut i: usize = 0;
    while i < p.rows.len()
        invariant
            i <= p.rows@.len(),
            width == it_width(p.rows@),
            r@.len() == i,
            forall|k: int| 0 <= k < i ==> (#[trigger] r@[k])@.len() == width,
            forall|k: int, c: int|
                0 <= k < i && 0 <= c < width ==> (#[trigger] r@[k]@[c]) == it_cell(
                    p.rows@[k]@,
                    c,
                    samples as nat,
                ),
        decreases p.rows@.len() - i,
    {
        proof {
            lemma_it_width_bounds(p.rows@, i as int);
        }
        r.push(convert_row(&p.rows[i], width, samples));
        i += 1;
    }
    r
}

impl ITModule {
    /// The playback rules that the header flags select.
    pub open spec fn mode(&self) -> PlaybackMode {
        if self.flags & IT_FLAG_INSTRUMENTS != 0 {
            PlaybackMode::IT
        } else {
            PlaybackMode::ITSample
        }
    }

    /// Whether `m` is this module in canonical form. The playlist is the
    /// order list, made to end in the end-of-song marker; the name is the
    /// name field without its trailing zero bytes.
    pub open spec fn canonical(&self, m: Module) -> bool {
        &&& is_field_text(m.name@, self.song_name@)
        &&& m.mode == self.mode()
        &&& m.linear_freq_slides == (self.flags & IT_FLAG_LINEAR_SLIDES != 0)
        &&& !m.fast_volume_slides
        &&& m.initial_tempo == self.initial_tempo
        &&& m.initial_speed == self.initial_speed
        &&& m.initial_global_volume == self.global_volume
        &&& m.mixing_volume == self.mixing_volume
        &&& m.samples@.len() == self.samples@.len()
        &&& forall|i: int|
            0 <= i < m.samples@.len() ==> (#[trigger] self.samples@[i]).canonical(m.samples@[i])
        &&& m.patterns@.len() == self.patterns@.len()
        &&& forall|i: int|
            0 <= i < m.patterns@.len() ==> (#[trigger] self.patterns@[i]).canonical(
                m.patterns@[i],
                self.samples@.len(),
            )
        &&& m.playlist@ == terminated(self.orders@)
    }
}

impl ModuleInterface for ITModule {
    /// Every sample in canonical form, in file order.
    fn samples(&self) -> (r: Vec<Sample>)
        ensures
            r@.len() == self.samples@.len(),
            forall|i: int| 0 <= i < r@.len() ==> (#[trigger] self.samples@[i]).canonical(r@[i]),
    {
        let mut r: Vec<Sample> = Vec::with_capacity(self.samples.len());
        let mut i: usize = 0;
        while i < self.samples.len()
            invariant
                i <= self.samples@.len(),
                r@.len() == i,
                samples_wf(r@),
                forall|k: int| 0 <= k < i ==> (#[trigger] self.samples@[k]).canonical(r@[k]),
            decreases self.samples@.len() - i,
        {
            let s = &self.samples[i];
            let bits = s.flags & (IT_SAMPLE_LOOP | IT_SAMPLE_PINGPONG);
            let kind = if bits == IT_SAMPLE_LOOP {
                LoopType::Forward
            } else if bits == IT_SAMPLE_LOOP | IT_SAMPLE_PINGPONG {
                LoopType::PingPong
            } else {
                LoopType::Off
            };
            r.push(
                make_sample(
                    s.c5_speed,
                    kind,
                    s.loop_begin,
                    s.loop_end,
                    s.volume,
                    s.global_volume,
                    s.audio.clone(),
                ),
            );
            i += 1;
        }
        r
    }

    /// Every pattern in canonical form, in file order.
    fn patterns(&self) -> (r: Vec<Pattern>)
        ensures
            r@.len() == self.patterns@.len(),
            instruments_valid(r@, self.samples@.len()),
            forall|i: int|
                0 <= i < r@.len() ==> (#[trigger] self.patterns@[i]).canonical(
                    r@[i],
                    self.samples@.len(),
                ),
    {
        let samples = self.samples.len();
        let mut r: Vec<Pattern> = Vec::with_capacity(self.patterns.len());
        let mut i: usize = 0;
        while i < self.patterns.len()
            invariant
                i <= self.patterns@.len(),
                r@.len() == i,
                samples == self.samples@.len(),
                instruments_valid(r@, samples as nat),
                forall|k: int|
                    0 <= k < i ==> (#[trigger] self.patterns@[k]).canonical(r@[k], samples as nat),
            decreases self.patterns@.len() - i,
        {
            let ghost before = r@;
            r.push(convert_pattern(&self.patterns[i], samples));
            assert forall|p: int, w: int, c: int|
                0 <= p < r@.len() && 0 <= w < r@[p]@.len() && 0 <= c < r@[p]@[w]@.len() && (
                #[trigger] r@[p]@[w]@[c]).note is On implies r@[p]@[w]@[c].instrument
                <= samples by {
                if p < i {
                    assert(r@[p] == before[p]);
                }
            }
            i += 1;
        }
        r
    }

    /// The song in canonical form.
    fn module(&self) -> (m: Module)
        ensures
            self.canonical(m),
    {
        Module {
            name: field_text(self.song_name.as_slice()),
            mode: if self.flags & IT_FLAG_INSTRUMENTS != 0 {
                PlaybackMode::IT
            } else {
                PlaybackMode::ITSample
            },
            linear_freq_slides: self.flags & IT_FLAG_LINEAR_SLIDES != 0,
            fast_volume_slides: false,
            initial_tempo: self.initial_tempo,
            initial_speed: self.initial_speed,
            initial_global_volume: self.global_volume,
            mixing_volume: self.mixing_volume,
            samples: self.samples(),
            patterns: self.patterns(),
            playlist: make_playlist(&self.orders),
        }
    }
}

/// Every row of a pattern in canonical form has the pattern's channel
/// count, which is the width of the widest stored row.
pub proof fn lemma_it_rows_uniform(raw: ITPattern, p: Pattern, samples: nat)
    requires
        raw.canonical(p, samples),
    ensures
        rows_have_width(p@, channel_count(p@)),
        p@.len() > 0 ==> channel_count(p@) == it_width(raw.rows@),
{
    if p@.len() > 0 {
        lemma_channel_count_uniform(p@, it_width(raw.rows@));
    }
}

/// Every pattern of a decoded module, in canonical form, has at most 64
/// channels, and every row of it has as many cells as the pattern has
/// channels.
pub proof fn lemma_it_channel_count(
    b: Seq<u8>,
    m: ITModule,
    i: int,
    p: Pattern,
    samples: nat,
)
    requires
        m.decoded_from(b),
        0 <= i < m.patterns@.len(),
        m.patterns@[i].canonical(p, samples),
    ensures
        rows_have_width(p@, channel_count(p@)),
        channel_count(p@) <= 64,
{
    let raw = m.patterns@[i];
    lemma_it_pattern_widths(b, it_pattern_offset(b, i));
    let rows = it_rows_view(raw.rows@);
    assert(it_rows_within(rows));
    assert forall|r: int| 0 <= r < raw.rows@.len() implies (#[trigger] raw.rows@[r])@.len()
        <= 64 by {
        assert(rows[r].len() <= 64);
    }
    lemma_it_width_within(raw.rows@, 64);
    lemma_it_rows_uniform(raw, p, samples);
    lemma_channel_count_within(p@, 64);
}

} // verus!
