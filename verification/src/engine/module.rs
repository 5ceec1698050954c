//! The canonical, format-independent song: what every decoder produces and
//! what the player consumes.

use vstd::prelude::*;

verus! {

/// The playlist entry that ends the song.
pub const ORDER_END: u8 = 255;

/// The playlist entry that stands for an empty order and is passed over.
pub const ORDER_SKIP: u8 = 254;

/// What the note column of a cell asks for.
#[derive(Debug, Clone, Copy, PartialEq, Eq, Structural)]
pub enum Note {
    /// No note on this cell.
    Empty,
    On(u8),
    Fade,
    Cut,
    Off,
}

impl Default for Note {
    fn default() -> (r: Self)
        ensures
            r == Note::Empty,
    {
        Note::Empty
    }
}

/// The main effect column of a cell, named after Impulse Tracker's letters.
#[derive(Debug, Clone, Copy, PartialEq, Eq, Structural)]
pub enum Effect {
    /// No effect on this cell.
    Empty,
    SetSpeed(u8),  // Axx
    PosJump(u8),  // Bxx
    PatBreak(u8),  // Cxx
    VolSlide(u8),  // Dxy
    PortaDown(u8),  // Exx
    PortaUp(u8),  // Fxx
    TonePorta(u8),  // Gxx
    Vibrato(u8),  // Hxy
    Tremor(u8),  // Ixy
    Arpeggio(u8),  // Jxy
    VolSlideVibrato(u8),  // Kxy
    VolSlideTonePorta(u8),  // Lxy
    SetChanVol(u8),  // Mxx
    ChanVolSlide(u8),  // Nxy
    SampleOffset(u8),  // Oxx
    PanSlide(u8),  // Pxy
    Retrig(u8),  // Qxy
    Tremolo(u8),  // Rxy
    GlissandoControl(bool),  // S1x
    SetFinetune(u8),  // S2x
    SetVibratoWaveform(u8),  // S3x
    SetTremoloWaveform(u8),  // S4x
    SetPanbrelloWaveform(u8),  // S5x
    FinePatternDelay(u8),  // S6x
    PastNoteCut,  // S70
    PastNoteOff,  // S71
    PastNoteFade,  // S72
    NNANoteCut,  // S73
    NNANoteContinue,  // S74
    NNANoteOff,  // S75
    NNANoteFade,  // S76
    VolEnvOff,  // S77
    VolEnvOn,  // S78
    PanEnvOff,  // S79
    PanEnvOn,  // S7A
    PitchEnvOff,  // S7B
    PitchEnvOn,  // S7C
    SetPan(u8),  // S8x
    SoundControl(u8),  // S9x
    HighOffset(u8),  // SAx
    PatLoopStart,  // SB0
    PatLoop(u8),  // SBx
    NoteCut(u8),  // SCx
    NoteDelay(u8),  // SDx
    PatDelay(u8),  // SEx
    SetActiveMacro(u8),  // SFx
    DecTempo(u8),  // T0x
    IncTempo(u8),  // T1x
    SetTempo(u8),  // Txx
    FineVibrato(u8),  // Uxy
    SetGlobalVol(u8),  // Vxx
    GlobalVolSlide(u8),  // Wxy
    FineSetPan(u8),  // Xxx
    Panbrello(u8),  // Yxy
    MIDIMacro(u8),  // Zxx
    /// Scream Tracker 2's combined speed-and-tempo command, kept as stored.
    STMTempo(u8),
}

impl Default for Effect {
    fn default() -> (r: Self)
        ensures
            r == Effect::Empty,
    {
        Effect::Empty
    }
}

/// The volume column of a cell.
#[derive(Debug, Clone, Copy, PartialEq, Eq, Structural)]
pub enum VolEffect {
    /// Nothing in the volume column.
    Empty,
    FineVolSlideUp(u8),  // a0x
    FineVolSlideDown(u8),  // b0x
    VolSlideUp(u8),  // c0x
    VolSlideDown(u8),  // d0x
    PortaDown(u8),  // e0x
    PortaUp(u8),  // f0x
    TonePorta(u8),  // g0x
    VibratoDepth(u8),  // h0x
    SetPan(u8),  // pxx
    Volume(u8),  // vxx
}

impl Default for VolEffect {
    fn default() -> (r: Self)
        ensures
            r == VolEffect::Empty,
    {
        VolEffect::Empty
    }
}

/// How a sample repeats once its loop end is reached.
#[derive(Debug, Clone, Copy, PartialEq, Eq, Structural)]
pub enum LoopType {
    /// The sample plays once to its end.
    Off,
    Forward,
    PingPong,
}

/// Settings that only Scream Tracker 3 modules carry.
#[derive(Debug, Clone, Copy, PartialEq, Eq, Structural)]
pub struct S3MOptions {
    /// Whether the module was written for a Gravis Ultrasound.
    pub gus: bool,
}

/// Which tracker's playback rules a module follows.
#[derive(Debug, Clone, Copy, PartialEq, Eq, Structural)]
pub enum PlaybackMode {
    MOD,
    S3M(S3MOptions),
    XM,
    IT,
    ITSample,
}

/// A digitised waveform with its loop and volume settings.
#[derive(Debug, Clone)]
pub struct Sample {
    /// Playback rate in Hz at C-5.
    pub base_frequency: u32,
    pub loop_type: LoopType,
    pub loop_start: u32,
    pub loop_end: u32,
    pub default_volume: u8,
    pub global_volume: u8,
    /// Signed 16-bit mono frames.
    pub audio: Vec<i16>,
}

impl Sample {
    /// A looping sample loops over a non-empty stretch of its own audio.
    pub open spec fn wf(&self) -> bool {
        self.loop_type != LoopType::Off ==> 0 <= self.loop_start < self.loop_end
            <= self.audio@.len()
    }
}

/// One cell of a pattern: what one channel does on one row.
#[derive(Debug, Clone, Copy, PartialEq, Eq, Structural)]
pub struct Column {
    pub note: Note,
    /// 0 for "no change", else a 1-based sample number.
    pub instrument: u8,
    pub vol: VolEffect,
    pub effect: Effect,
}

/// The cell that says nothing: no note, no instrument, no volume, no effect.
pub open spec fn empty_column() -> Column {
    Column { note: Note::Empty, instrument: 0, vol: VolEffect::Empty, effect: Effect::Empty }
}

impl Default for Column {
    fn default() -> (r: Self)
        ensures
            r == empty_column(),
    {
        Column { note: Note::Empty, instrument: 0, vol: VolEffect::Empty, effect: Effect::Empty }
    }
}

pub type Row = Vec<Column>;

pub type Pattern = Vec<Row>;

/// A decoded song.
#[derive(Debug)]
pub struct Module {
    pub name: String,
    pub mode: PlaybackMode,
    pub linear_freq_slides: bool,
    pub fast_volume_slides: bool,
    pub initial_tempo: u8,
    pub initial_speed: u8,
    pub initial_global_volume: u8,
    pub mixing_volume: u8,
    pub samples: Vec<Sample>,
    pub patterns: Vec<Pattern>,
    pub playlist: Vec<u8>,
}

/// The number of channels of a pattern: the width of its widest row.
pub open spec fn channel_count(p: Seq<Row>) -> nat
    decreases p.len(),
{
    if p.len() == 0 {
        0
    } else {
        let rest = channel_count(p.drop_last());
        if p.last()@.len() > rest {
            p.last()@.len()
        } else {
            rest
        }
    }
}

/// Whether every row of `p` has exactly `n` cells.
pub open spec fn rows_have_width(p: Seq<Row>, n: nat) -> bool {
    forall|r: int| 0 <= r < p.len() ==> (#[trigger] p[r])@.len() == n
}

/// Whether every row of `p` has at most `n` cells.
pub open spec fn rows_within_width(p: Seq<Row>, n: nat) -> bool {
    forall|r: int| 0 <= r < p.len() ==> (#[trigger] p[r])@.len() <= n
}

/// A pattern whose rows have at most `n` cells has at most `n` channels.
pub proof fn lemma_channel_count_within(p: Seq<Row>, n: nat)
    requires
        rows_within_width(p, n),
    ensures
        channel_count(p) <= n,
    decreases p.len(),
{
    if p.len() > 0 {
        assert forall|r: int| 0 <= r < p.drop_last().len() implies (#[trigger] p.drop_last()[r])@.len()
            <= n by {
            assert(p.drop_last()[r] == p[r]);
        }
        lemma_channel_count_within(p.drop_last(), n);
    }
}

/// A non-empty pattern whose rows all have `n` cells has `n` channels.
pub proof fn lemma_channel_count_uniform(p: Seq<Row>, n: nat)
    requires
        p.len() > 0,
        rows_have_width(p, n),
    ensures
        channel_count(p) == n,
    decreases p.len(),
{
    if p.len() > 1 {
        assert forall|r: int| 0 <= r < p.drop_last().len() implies (#[trigger] p.drop_last()[r])@.len()
            == n by {
            assert(p.drop_last()[r] == p[r]);
        }
        lemma_channel_count_uniform(p.drop_last(), n);
    } else {
        assert(channel_count(p.drop_last()) == 0);
    }
}

/// Whether a playlist ends in the end-of-song marker.
pub open spec fn playlist_terminated(playlist: Seq<u8>) -> bool {
    playlist.len() > 0 && playlist.last() == ORDER_END
}

/// Whether every sample of `samples` is well formed.
pub open spec fn samples_wf(samples: Seq<Sample>) -> bool {
    forall|i: int| 0 <= i < samples.len() ==> (#[trigger] samples[i]).wf()
}

/// Whether every cell that starts a note names no instrument or one of
/// the first `samples` samples.
pub open spec fn instruments_valid(patterns: Seq<Pattern>, samples: nat) -> bool {
    forall|p: int, r: int, c: int|
        0 <= p < patterns.len() && 0 <= r < patterns[p]@.len() && 0 <= c < patterns[p]@[r]@.len()
            && (#[trigger] patterns[p]@[r]@[c]).note is On ==> patterns[p]@[r]@[c].instrument
            <= samples
}

impl Module {
    /// What every decoder promises of the module it returns: the playlist
    /// ends in the end-of-song marker, looping samples loop inside their
    /// audio, and every cell that starts a note names no instrument or one
    /// that exists.
    pub open spec fn wf(&self) -> bool {
        &&& playlist_terminated(self.playlist@)
        &&& samples_wf(self.samples@)
        &&& instruments_valid(self.patterns@, self.samples@.len())
    }
}

/// A decoded file of one format, seen as a canonical song.
pub trait ModuleInterface {
    /// The samples in canonical form.
    fn samples(&self) -> (r: Vec<Sample>)
        ensures
            samples_wf(r@),
    ;

    /// The patterns in canonical form.
    fn patterns(&self) -> Vec<Pattern>;

    /// The whole song in canonical form.
    fn module(&self) -> (m: Module)
        ensures
            m.wf(),
    ;
}

// ---------------------------------------------------------------------------
// Building canonical values
// ---------------------------------------------------------------------------

/// A loop end held inside the audio.
pub open spec fn clamped_loop_end(loop_end: u32, frames: nat) -> u32 {
    if loop_end <= frames {
        loop_end
    } else {
        frames as u32
    }
}

/// The loop type of a sample whose file asks for `kind`: `kind` itself where
/// the loop, its end held inside the audio, is not empty, and no loop
/// otherwise.
pub open spec fn effective_loop(kind: LoopType, loop_start: u32, loop_end: u32, frames: nat) -> LoopType {
    if loop_start < clamped_loop_end(loop_end, frames) {
        kind
    } else {
        LoopType::Off
    }
}

/// Builds a sample from what a file says of it, holding the loop inside the
/// audio.
pub(crate) fn make_sample(
    base_frequency: u32,
    kind: LoopType,
    loop_start: u32,
    loop_end: u32,
    default_volume: u8,
    global_volume: u8,
    audio: Vec<i16>,
) -> (s: Sample)
    ensures
        s.wf(),
        s.base_frequency == base_frequency,
        s.loop_type == effective_loop(kind, loop_start, loop_end, audio@.len()),
        s.loop_start == loop_start,
        s.loop_end == clamped_loop_end(loop_end, audio@.len()),
        s.default_volume == default_volume,
        s.global_volume == global_volume,
        s.audio == audio,
{
    let frames = audio.len();
    let end = if loop_end as usize <= frames {
        loop_end
    } else {
        frames as u32
    };
    let loop_type = if loop_start < end {
        kind
    } else {
        LoopType::Off
    };
    Sample {
        base_frequency,
        loop_type,
        loop_start,
        loop_end: end,
        default_volume,
        global_volume,
        audio,
    }
}

/// The instrument number of a cell as the canonical form holds it: on a
/// cell that starts a note, a number past the last of the `samples` samples
/// becomes the number of the last; any other number stays.
pub open spec fn held_instrument(note: Note, instrument: u8, samples: nat) -> u8 {
    if note is On && instrument > samples {
        samples as u8
    } else {
        instrument
    }
}

/// Computes `held_instrument`.
pub(crate) fn hold_instrument(note: Note, instrument: u8, samples: usize) -> (r: u8)
    ensures
        r == held_instrument(note, instrument, samples as nat),
{
    match note {
        Note::On(_) => if instrument as usize > samples {
            samples as u8
        } else {
            instrument
        },
        _ => instrument,
    }
}

/// A playlist made to end in the end-of-song marker: unchanged where it
/// already does, else with the marker added.
pub open spec fn terminated(orders: Seq<u8>) -> Seq<u8> {
    if playlist_terminated(orders) {
        orders
    } else {
        orders.push(ORDER_END)
    }
}

/// Copies `orders` and makes the copy end in the end-of-song marker.
pub(crate) fn make_playlist(orders: &Vec<u8>) -> (r: Vec<u8>)
    ensures
        r@ == terminated(orders@),
        playlist_terminated(r@),
{
    let mut r = orders.clone();
    let n = r.len();
    if n == 0 || r[n - 1] != ORDER_END {
        r.push(ORDER_END);
    }
    r
}

/// The meaning of a volume-column byte in Impulse Tracker's numbering.
pub open spec fn volume_column(v: u8) -> VolEffect {
    if v <= 64 {
        VolEffect::Volume(v)
    } else if v <= 74 {
        VolEffect::FineVolSlideUp((v - 65) as u8)
    } else if v <= 84 {
        VolEffect::FineVolSlideDown((v - 75) as u8)
    } else if v <= 94 {
        VolEffect::VolSlideUp((v - 85) as u8)
    } else if v <= 104 {
        VolEffect::VolSlideDown((v - 95) as u8)
    } else if v <= 114 {
        VolEffect::PortaDown((v - 105) as u8)
    } else if v <= 124 {
        VolEffect::PortaUp((v - 115) as u8)
    } else if 128 <= v <= 192 {
        VolEffect::SetPan((v - 128) as u8)
    } else if 193 <= v <= 202 {
        VolEffect::TonePorta((v - 193) as u8)
    } else if 203 <= v <= 212 {
        VolEffect::VibratoDepth((v - 203) as u8)
    } else {
        VolEffect::Empty
    }
}

/// Computes `volume_column`.
pub(crate) fn volume_column_of(v: u8) -> (r: VolEffect)
    ensures
        r == volume_column(v),
{
    if v <= 64 {
        VolEffect::Volume(v)
    } else if v <= 74 {
        VolEffect::FineVolSlideUp(v - 65)
    } else if v <= 84 {
        VolEffect::FineVolSlideDown(v - 75)
    } else if v <= 94 {
        VolEffect::VolSlideUp(v - 85)
    } else if v <= 104 {
        VolEffect::VolSlideDown(v - 95)
    } else if v <= 114 {
        VolEffect::PortaDown(v - 105)
    } else if v <= 124 {
        VolEffect::PortaUp(v - 115)
    } else if 128 <= v && v <= 192 {
        VolEffect::SetPan(v - 128)
    } else if 193 <= v && v <= 202 {
        VolEffect::TonePorta(v - 193)
    } else if 203 <= v && v <= 212 {
        VolEffect::VibratoDepth(v - 203)
    } else {
        VolEffect::Empty
    }
}

/// The meaning of the special command `Sxy`, `x` being the high and `y` the
/// low digit of `value`. `past_notes` says whether the `S7y` family exists
/// in the format at hand.
pub open spec fn special_effect(value: u8, past_notes: bool) -> Effect {
    let x = value / 16;
    let y = (value % 16) as u8;
    if x == 1 {
        Effect::GlissandoControl(y > 1)
    } else if x == 2 {
        Effect::SetFinetune(y)
    } else if x == 3 {
        Effect::SetVibratoWaveform(y)
    } else if x == 4 {
        Effect::SetTremoloWaveform(y)
    } else if x == 5 {
        Effect::SetPanbrelloWaveform(y)
    } else if x == 6 {
        Effect::FinePatternDelay(y)
    } else if x == 7 {
        if !past_notes {
            Effect::Empty
        } else if y == 0 {
            Effect::PastNoteCut
        } else if y == 1 {
            Effect::PastNoteOff
        } else if y == 2 {
            Effect::PastNoteFade
        } else if y == 3 {
            Effect::NNANoteCut
        } else if y == 4 {
            Effect::NNANoteContinue
        } else if y == 5 {
            Effect::NNANoteOff
        } else if y == 6 {
            Effect::NNANoteFade
        } else if y == 7 {
            Effect::VolEnvOff
        } else if y == 8 {
            Effect::VolEnvOn
        } else if y == 9 {
            Effect::PanEnvOff
        } else if y == 10 {
            Effect::PanEnvOn
        } else if y == 11 {
            Effect::PitchEnvOff
        } else if y == 12 {
            Effect::PitchEnvOn
        } else {
            Effect::Empty
        }
    } else if x == 8 {
        Effect::SetPan(y)
    } else if x == 9 {
        Effect::SoundControl(y)
    } else if x == 10 {
        Effect::HighOffset(y)
    } else if x == 11 {
        if y == 0 {
            Effect::PatLoopStart
        } else {
            Effect::PatLoop(y)
        }
    } else if x == 12 {
        Effect::NoteCut(y)
    } else if x == 13 {
        Effect::NoteDelay(y)
    } else if x == 14 {
        Effect::PatDelay(y)
    } else if x == 15 {
        Effect::SetActiveMacro(y)
    } else {
        Effect::Empty
    }
}

/// Computes `special_effect`.
pub(crate) fn special_effect_of(value: u8, past_notes: bool) -> (r: Effect)
    ensures
        r == special_effect(value, past_notes),
{
    let x = value / 16;
    let y = value % 16;
    if x == 1 {
        Effect::GlissandoControl(y > 1)
    } else if x == 2 {
        Effect::SetFinetune(y)
    } else if x == 3 {
        Effect::SetVibratoWaveform(y)
    } else if x == 4 {
        Effect::SetTremoloWaveform(y)
    } else if x == 5 {
        Effect::SetPanbrelloWaveform(y)
    } else if x == 6 {
        Effect::FinePatternDelay(y)
    } else if x == 7 {
        if !past_notes {
            Effect::Empty
        } else if y == 0 {
            Effect::PastNoteCut
        } else if y == 1 {
            Effect::PastNoteOff
        } else if y == 2 {
            Effect::PastNoteFade
        } else if y == 3 {
            Effect::NNANoteCut
        } else if y == 4 {
            Effect::NNANoteContinue
        } else if y == 5 {
            Effect::NNANoteOff
        } else if y == 6 {
            Effect::NNANoteFade
        } else if y == 7 {
            Effect::VolEnvOff
        } else if y == 8 {
            Effect::VolEnvOn
        } else if y == 9 {
            Effect::PanEnvOff
        } else if y == 10 {
            Effect::PanEnvOn
        } else if y == 11 {
            Effect::PitchEnvOff
        } else if y == 12 {
            Effect::PitchEnvOn
        } else {
            Effect::Empty
        }
    } else if x == 8 {
        Effect::SetPan(y)
    } else if x == 9 {
        Effect::SoundControl(y)
    } else if x == 10 {
        Effect::HighOffset(y)
    } else if x == 11 {
        if y == 0 {
            Effect::PatLoopStart
        } else {
            Effect::PatLoop(y)
        }
    } else if x == 12 {
        Effect::NoteCut(y)
    } else if x == 13 {
        Effect::NoteDelay(y)
    } else if x == 14 {
        Effect::PatDelay(y)
    } else if x == 15 {
        Effect::SetActiveMacro(y)
    } else {
        Effect::Empty
    }
}

/// The meaning of the effect with letter number `code` (1 for A up to 26
/// for Z) and argument `value`.
pub open spec fn lettered_effect(code: u8, value: u8, past_notes: bool) -> Effect {
    if code == 1 {
        Effect::SetSpeed(value)
    } else if code == 2 {
        Effect::PosJump(value)
    } else if code == 3 {
        Effect::PatBreak(value)
    } else if code == 4 {
        Effect::VolSlide(value)
    } else if code == 5 {
        Effect::PortaDown(value)
    } else if code == 6 {
        Effect::PortaUp(value)
    } else if code == 7 {
        Effect::TonePorta(value)
    } else if code == 8 {
        Effect::Vibrato(value)
    } else if code == 9 {
        Effect::Tremor(value)
    } else if code == 10 {
        Effect::Arpeggio(value)
    } else if code == 11 {
        Effect::VolSlideVibrato(value)
    } else if code == 12 {
        Effect::VolSlideTonePorta(value)
    } else if code == 13 {
        Effect::SetChanVol(value)
    } else if code == 14 {
        Effect::ChanVolSlide(value)
    } else if code == 15 {
        Effect::SampleOffset(value)
    } else if code == 16 {
        Effect::PanSlide(value)
    } else if code == 17 {
        Effect::Retrig(value)
    } else if code == 18 {
        Effect::Tremolo(value)
    } else if code == 19 {
        special_effect(value, past_notes)
    } else if code == 20 {
        if value / 16 == 0 {
            Effect::DecTempo((value % 16) as u8)
        } else if value / 16 == 1 {
            Effect::IncTempo((value % 16) as u8)
        } else {
            Effect::SetTempo(value)
        }
    } else if code == 21 {
        Effect::FineVibrato(value)
    } else if code == 22 {
        Effect::SetGlobalVol(value)
    } else if code == 23 {
        Effect::GlobalVolSlide(value)
    } else if code == 24 {
        Effect::FineSetPan(value)
    } else if code == 25 {
        Effect::Panbrello(value)
    } else if code == 26 {
        Effect::MIDIMacro(value)
    } else {
        Effect::Empty
    }
}

/// Computes `lettered_effect`.
pub(crate) fn lettered_effect_of(code: u8, value: u8, past_notes: bool) -> (r: Effect)
    ensures
        r == lettered_effect(code, value, past_notes),
{
    match code {
        1 => Effect::SetSpeed(value),
        2 => Effect::PosJump(value),
        3 => Effect::PatBreak(value),
        4 => Effect::VolSlide(value),
        5 => Effect::PortaDown(value),
        6 => Effect::PortaUp(value),
        7 => Effect::TonePorta(value),
        8 => Effect::Vibrato(value),
        9 => Effect::Tremor(value),
        10 => Effect::Arpeggio(value),
        11 => Effect::VolSlideVibrato(value),
        12 => Effect::VolSlideTonePorta(value),
        13 => Effect::SetChanVol(value),
        14 => Effect::ChanVolSlide(value),
        15 => Effect::SampleOffset(value),
        16 => Effect::PanSlide(value),
        17 => Effect::Retrig(value),
        18 => Effect::Tremolo(value),
        19 => special_effect_of(value, past_notes),
        20 => {
            if value / 16 == 0 {
                Effect::DecTempo(value % 16)
            } else if value / 16 == 1 {
                Effect::IncTempo(value % 16)
            } else {
                Effect::SetTempo(value)
            }
        },
        21 => Effect::FineVibrato(value),
        22 => Effect::SetGlobalVol(value),
        23 => Effect::GlobalVolSlide(value),
        24 => Effect::FineSetPan(value),
        25 => Effect::Panbrello(value),
        26 => Effect::MIDIMacro(value),
        _ => Effect::Empty,
    }
}

} // verus!
