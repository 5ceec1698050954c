//! One voice of the player: the sample it is bound to, the effects that
//! act on it, and how it adds its sound to the output.

use super::module::{
    clamped_loop_end, effective_loop, Column, Effect, LoopType, Module, Note, Sample, VolEffect,
};
use super::pitch::{
    amiga_period, glide, glided, lemma_note_frequency_in_range, lemma_period_frequency_in_range,
    lemma_scaled_in_range, lemma_slid_in_range, moved_period, note_freq, note_frequency, slid,
    slide, FREQ_DEFAULT, FREQ_LIMIT, ONE,
};
use super::player::Interpolation;
use super::resample::{
    buf_linear, buf_sinc, clamped_frame, linear_frame, nearest_frame, sinc_frame, FRAMES_LIMIT,
    FRAME_GAIN, SEGMENT_LIMIT,
};
use super::volume::{
    apply_volume, clamp_volume, clamped_volume, retriggered_volume, volume_of,
    volume_slide_delta, whole_volume, with_volume, VOLUME_MAX,
};
use vstd::prelude::*;

verus! {

// ---------------------------------------------------------------------------
// The playable stretch of a sample
// ---------------------------------------------------------------------------

/// Where a sample can be played: its length and its loop, as the player
/// takes them. The loop is held inside the audio and counts only where
/// something of it is left, whatever the sample's own fields say.
#[derive(Debug, Clone, Copy, PartialEq, Eq, Structural)]
pub struct Span {
    /// Number of frames that can be played.
    pub frames: u64,
    /// The loop in force.
    pub looping: LoopType,
    /// First frame of the loop.
    pub loop_start: u64,
    /// The frame after the last of the loop.
    pub loop_end: u64,
}

impl Span {
    /// A loop in force is a non-empty stretch of the playable frames.
    pub open spec fn wf(&self) -> bool {
        &&& self.frames <= FRAMES_LIMIT
        &&& self.looping != LoopType::Off ==> self.loop_start < self.loop_end <= self.frames
    }

    /// The frame at which forward play meets its boundary: the loop end
    /// where a loop is in force, else the end of the sample.
    pub open spec fn forward_end(&self) -> int {
        if self.looping != LoopType::Off {
            self.loop_end as int
        } else {
            self.frames as int
        }
    }

    /// Whether a voice at `position`, moving backwards or not, is inside
    /// the stretch it can play: before the forward boundary when moving
    /// forwards; above the start and up to the end of a ping-pong loop when
    /// moving backwards.
    pub open spec fn holds(&self, position: u64, backwards: bool) -> bool {
        if backwards {
            &&& self.looping == LoopType::PingPong
            &&& self.loop_start * ONE < position <= self.loop_end * ONE
        } else {
            position < self.forward_end() * ONE
        }
    }

    /// The distance from `position` to the boundary that the voice is
    /// heading for: the loop start when moving backwards, else the forward
    /// boundary.
    pub open spec fn ahead(&self, position: u64, backwards: bool) -> int {
        if backwards {
            position - self.loop_start * ONE
        } else {
            self.forward_end() * ONE - position
        }
    }

    /// Length of the loop, with 16 fractional bits.
    pub open spec fn loop_length(&self) -> int {
        (self.loop_end - self.loop_start) * ONE
    }

    /// The span of a voice that has no sample.
    pub open spec fn empty() -> Span {
        Span { frames: 0, looping: LoopType::Off, loop_start: 0, loop_end: 0 }
    }
}

impl Sample {
    /// Number of frames that can be played.
    pub open spec fn frames(&self) -> int {
        if self.audio@.len() > FRAMES_LIMIT {
            FRAMES_LIMIT as int
        } else {
            self.audio@.len() as int
        }
    }

    /// Where this sample can be played.
    pub open spec fn span(&self) -> Span {
        Span {
            frames: self.frames() as u64,
            looping: effective_loop(
                self.loop_type,
                self.loop_start,
                self.loop_end,
                self.frames() as nat,
            ),
            loop_start: self.loop_start as u64,
            loop_end: clamped_loop_end(self.loop_end, self.frames() as nat) as u64,
        }
    }
}

/// The player takes the loop of a well-formed sample as it stands: nothing
/// of it needs to be held back.
pub proof fn lemma_span_of_well_formed_sample(sample: Sample)
    requires
        sample.wf(),
        sample.audio@.len() <= FRAMES_LIMIT,
    ensures
        sample.span().wf(),
        sample.span().frames == sample.audio@.len(),
        sample.span().looping == sample.loop_type,
        sample.loop_type != LoopType::Off ==> sample.span().loop_start == sample.loop_start
            && sample.span().loop_end == sample.loop_end,
{
}

/// Computes `Sample::span`.
fn span_of(sample: &Sample) -> (r: Span)
    ensures
        r == sample.span(),
        r.wf(),
{
    let len = sample.audio.len();
    let frames: u64 = if len as u64 > FRAMES_LIMIT {
        FRAMES_LIMIT
    } else {
        len as u64
    };
    let loop_end: u64 = if sample.loop_end as u64 <= frames {
        sample.loop_end as u64
    } else {
        frames
    };
    let looping = if (sample.loop_start as u64) < loop_end {
        sample.loop_type
    } else {
        LoopType::Off
    };
    Span { frames, looping, loop_start: sample.loop_start as u64, loop_end }
}

// ---------------------------------------------------------------------------
// Channels
// ---------------------------------------------------------------------------

/// One voice: the sample it is bound to, where and how fast it plays it,
/// and what its effects remember from row to row.
#[derive(Debug, Clone, Copy)]
pub struct Channel<'a> {
    pub module: &'a Module,
    /// Index into the module's samples.
    pub current_sample_index: u8,
    pub playing: bool,
    /// Frequency in Hz, with 16 fractional bits.
    pub freq: u64,
    /// Position in sample frames, with 16 fractional bits.
    pub position: u64,
    /// Whether a ping-pong loop is on its way back.
    pub backwards: bool,
    /// Last argument of a pitch slide or tone portamento.
    pub porta_memory: u8,
    /// Last key that a tone portamento was given.
    pub last_note: u8,
    /// Last argument of a sample offset.
    pub offset_memory: u8,
    /// Last argument of a volume slide.
    pub volume_memory: u8,
    /// Ticks since the last retrigger.
    pub retrigger_ticks: u8,
    /// Volume from 0 to 64, with 16 fractional bits.
    pub volume: u32,
}

impl<'a> Channel<'a> {
    /// Whether the channel is bound to a sample that exists.
    pub open spec fn bound(&self) -> bool {
        (self.current_sample_index as int) < self.module.samples@.len()
    }

    /// The stretch that the channel can play: that of its sample, or
    /// nothing where it has none.
    pub open spec fn span(&self) -> Span {
        if self.bound() {
            self.module.samples@[self.current_sample_index as int].span()
        } else {
            Span::empty()
        }
    }

    /// What holds of a channel between any two steps of the player: the
    /// volume lies between 0 and 64, the frequency below its limit, the
    /// position inside the audio of the channel's sample; and a channel
    /// that plays has not yet met the boundary it is heading for.
    pub open spec fn wf(&self) -> bool {
        &&& self.volume <= VOLUME_MAX
        &&& self.freq <= FREQ_LIMIT
        &&& self.position <= self.span().frames * ONE
        &&& self.playing ==> self.span().holds(self.position, self.backwards)
    }

    /// A channel at rest: bound to the first sample, silent, at full
    /// volume and at 8363 Hz.
    pub open spec fn at_rest(module: &'a Module) -> Channel<'a> {
        Channel {
            module,
            current_sample_index: 0,
            playing: false,
            freq: FREQ_DEFAULT,
            position: 0,
            backwards: false,
            porta_memory: 0,
            last_note: 0,
            offset_memory: 0,
            volume_memory: 0,
            retrigger_ticks: 0,
            volume: VOLUME_MAX,
        }
    }

    /// Makes a channel at rest.
    pub fn new(module: &'a Module) -> (r: Channel<'a>)
        ensures
            r.wf(),
            r == Channel::at_rest(module),
    {
        Channel {
            module,
            current_sample_index: 0,
            playing: false,
            freq: FREQ_DEFAULT,
            position: 0,
            backwards: false,
            porta_memory: 0,
            last_note: 0,
            offset_memory: 0,
            volume_memory: 0,
            retrigger_ticks: 0,
            volume: VOLUME_MAX,
        }
    }

    /// The sample that the channel is bound to, if it exists.
    pub fn sample(&self) -> (r: Option<&'a Sample>)
        ensures
            r is Some == self.bound(),
            r matches Some(s) ==> *s == self.module.samples@[self.current_sample_index as int],
    {
        let module: &'a Module = self.module;
        if (self.current_sample_index as usize) < module.samples.len() {
            Some(&module.samples[self.current_sample_index as usize])
        } else {
            None
        }
    }

    /// Computes `span`.
    pub fn current_span(&self) -> (r: Span)
        ensures
            r == self.span(),
            r.wf(),
    {
        match self.sample() {
            Some(s) => span_of(s),
            None => Span { frames: 0, looping: LoopType::Off, loop_start: 0, loop_end: 0 },
        }
    }

    /// Tests `wf`.
    pub fn is_consistent(&self) -> (r: bool)
        ensures
            r == self.wf(),
    {
        let span = self.current_span();
        if self.volume > VOLUME_MAX || self.freq > FREQ_LIMIT || self.position > span.frames * ONE {
            return false;
        }
        if !self.playing {
            return true;
        }
        if self.backwards {
            span.looping == LoopType::PingPong && span.loop_start * ONE < self.position
                && self.position <= span.loop_end * ONE
        } else if span.looping != LoopType::Off {
            self.position < span.loop_end * ONE
        } else {
            self.position < span.frames * ONE
        }
    }

    /// The argument that an effect works with: the one given, which it then
    /// remembers, or the remembered one where zero is given.
    pub open spec fn recalled(value: u8, memory: u8) -> u8 {
        if value != 0 {
            value
        } else {
            memory
        }
    }

    /// The channel after one tick of a pitch slide.
    pub open spec fn after_porta(self, linear: bool, value: u8, up: bool) -> Channel<'a> {
        let v = Self::recalled(value, self.porta_memory);
        Channel { porta_memory: v, freq: slid(self.freq as int, linear, v, up) as u64, ..self }
    }

    /// One tick of a pitch slide up.
    pub fn porta_up(&mut self, linear: bool, value: u8)
        requires
            old(self).wf(),
        ensures
            final(self).wf(),
            *final(self) == old(self).after_porta(linear, value, true),
            final(self).freq >= old(self).freq,
    {
        let v = if value != 0 {
            value
        } else {
            self.porta_memory
        };
        self.porta_memory = v;
        self.freq = slide(self.freq, linear, v, true);
    }

    /// One tick of a pitch slide down.
    pub fn porta_down(&mut self, linear: bool, value: u8)
        requires
            old(self).wf(),
        ensures
            final(self).wf(),
            *final(self) == old(self).after_porta(linear, value, false),
            final(self).freq <= old(self).freq,
    {
        let v = if value != 0 {
            value
        } else {
            self.porta_memory
        };
        self.porta_memory = v;
        self.freq = slide(self.freq, linear, v, false);
    }

    /// The key that a tone portamento heads for: the one on its row, or the
    /// last one given.
    pub open spec fn target_key(self, note: Note) -> u8 {
        match note {
            Note::On(key) => key,
            _ => self.last_note,
        }
    }

    /// The frequency that a tone portamento heads for: that of its key on
    /// the channel's sample.
    pub open spec fn target_frequency(self, note: Note) -> int {
        note_frequency(
            self.module.samples@[self.current_sample_index as int].base_frequency,
            self.target_key(note),
        )
    }

    /// The channel after one tick of a tone portamento. The argument and
    /// the key are remembered; the frequency moves only where the channel
    /// has a sample to take the target from.
    pub open spec fn after_tone_portamento(self, note: Note, linear: bool, value: u8) -> Channel<
        'a,
    > {
        let v = Self::recalled(value, self.porta_memory);
        let key = self.target_key(note);
        Channel {
            porta_memory: v,
            last_note: key,
            freq: if self.bound() {
                glided(self.freq as int, self.target_frequency(note), linear, v) as u64
            } else {
                self.freq
            },
            ..self
        }
    }

    /// One tick of a glide towards the last key given. The frequency ends
    /// between where it was and the target: the glide neither passes the
    /// target nor moves away from it.
    pub fn tone_portamento(&mut self, note: Note, linear: bool, value: u8)
        requires
            old(self).wf(),
        ensures
            final(self).wf(),
            *final(self) == old(self).after_tone_portamento(note, linear, value),
            old(self).bound() && old(self).freq <= old(self).target_frequency(note) ==> old(
                self,
            ).freq <= final(self).freq <= old(self).target_frequency(note),
            old(self).bound() && old(self).freq >= old(self).target_frequency(note) ==> old(
                self,
            ).target_frequency(note) <= final(self).freq <= old(self).freq,
            !old(self).bound() ==> final(self).freq == old(self).freq,
    {
        let v = if value != 0 {
            value
        } else {
            self.porta_memory
        };
        self.porta_memory = v;
        match note {
            Note::On(key) => { self.last_note = key; },
            _ => {},
        }
        let base = match self.sample() {
            Some(s) => s.base_frequency,
            None => { return ; },
        };
        let target = note_freq(base, self.last_note);
        self.freq = glide(self.freq, target, linear, v);
    }

    /// The channel after one tick of a volume slide.
    pub open spec fn after_vol_slide(self, value: u8) -> Channel<'a> {
        let v = Self::recalled(value, self.volume_memory);
        Channel {
            volume_memory: v,
            volume: clamped_volume(self.volume + volume_slide_delta(v)) as u32,
            ..self
        }
    }

    /// One tick of a volume slide.
    pub fn vol_slide(&mut self, value: u8)
        requires
            old(self).wf(),
        ensures
            final(self).wf(),
            *final(self) == old(self).after_vol_slide(value),
    {
        let v = if value != 0 {
            value
        } else {
            self.volume_memory
        };
        self.volume_memory = v;
        let upper = (v / 16) as i64;
        let lower = (v % 16) as i64;
        let one = ONE as i64;
        let delta: i64 = if upper == 0 && lower != 0 {
            -lower * one
        } else if upper != 0 && lower == 0 {
            upper * one
        } else if upper == 15 && lower != 0 {
            -(lower * one / 8)
        } else if upper != 0 && lower == 15 {
            upper * one / 8
        } else {
            0
        };
        self.volume = clamp_volume(self.volume as i64 + delta);
    }

    /// The channel after one tick of a retrigger: the volume changed as the
    /// high digit of the argument says; the voice set back to the start of
    /// its sample once the counter has reached the low digit; the counter
    /// one further.
    pub open spec fn after_retrigger(self, value: u8) -> Channel<'a> {
        let fire = self.retrigger_ticks >= value % 16;
        Channel {
            volume: retriggered_volume(self.volume as int, value as int / 16) as u32,
            position: if fire {
                0
            } else {
                self.position
            },
            backwards: if fire {
                false
            } else {
                self.backwards
            },
            playing: if fire {
                self.playing && self.span().forward_end() > 0
            } else {
                self.playing
            },
            retrigger_ticks: if fire {
                1
            } else {
                (self.retrigger_ticks + 1) as u8
            },
            ..self
        }
    }

    /// One tick of a retrigger.
    pub fn retrigger(&mut self, value: u8)
        requires
            old(self).wf(),
        ensures
            final(self).wf(),
            *final(self) == old(self).after_retrigger(value),
    {
        let v = self.volume as i64;
        let one = ONE as i64;
        let changed: i64 = match value / 16 {
            1 => v - one,
            2 => v - 2 * one,
            3 => v - 4 * one,
            4 => v - 8 * one,
            5 => v - 16 * one,
            6 => v * 2 / 3,
            7 => v / 2,
            9 => v + one,
            10 => v + 2 * one,
            11 => v + 4 * one,
            12 => v + 8 * one,
            13 => v + 16 * one,
            14 => v * 3 / 2,
            15 => v * 2,
            _ => v,
        };
        self.volume = clamp_volume(changed);
        if self.retrigger_ticks >= value % 16 {
            let span = self.current_span();
            let end = if span.looping != LoopType::Off {
                span.loop_end
            } else {
                span.frames
            };
            self.position = 0;
            self.backwards = false;
            self.playing = self.playing && end > 0;
            self.retrigger_ticks = 0;
        }
        self.retrigger_ticks += 1;
    }
}

// ---------------------------------------------------------------------------
// Moving through a sample
// ---------------------------------------------------------------------------

impl<'a> Channel<'a> {
    /// The channel after its voice has moved on by `amount`.
    ///
    /// Short of the boundary ahead, the position simply moves. At the
    /// boundary a sample without loop stops at its end; a forward loop
    /// goes on from the loop start; a ping-pong loop turns round. What is
    /// left of `amount` is then spent inside the loop, round and round or
    /// back and forth.
    pub open spec fn after_advance(self, amount: int) -> Channel<'a> {
        let span = self.span();
        let ahead = span.ahead(self.position, self.backwards);
        if !self.playing || amount <= 0 {
            self
        } else if amount < ahead {
            Channel {
                position: if self.backwards {
                    (self.position - amount) as u64
                } else {
                    (self.position + amount) as u64
                },
                ..self
            }
        } else {
            match span.looping {
                LoopType::Off => Channel {
                    position: (span.frames * ONE) as u64,
                    playing: false,
                    backwards: false,
                    ..self
                },
                LoopType::Forward => Channel {
                    position: (span.loop_start * ONE + (amount - ahead) % span.loop_length()) as u64,
                    backwards: false,
                    ..self
                },
                LoopType::PingPong => {
                    let length = span.loop_length();
                    let spent = (amount - ahead) % (2 * length);
                    let since_end = if self.backwards {
                        (spent + length) % (2 * length)
                    } else {
                        spent
                    };
                    if since_end < length {
                        Channel {
                            position: (span.loop_end * ONE - since_end) as u64,
                            backwards: true,
                            ..self
                        }
                    } else {
                        Channel {
                            position: (span.loop_start * ONE + (since_end - length)) as u64,
                            backwards: false,
                            ..self
                        }
                    }
                },
            }
        }
    }

    /// Moves the voice on by `amount` frames (with 16 fractional bits), and
    /// says whether it still plays.
    pub fn advance_position(&mut self, amount: u64) -> (still: bool)
        requires
            old(self).wf(),
        ensures
            final(self).wf(),
            *final(self) == old(self).after_advance(amount as int),
            still == final(self).playing,
    {
        if !self.playing || amount == 0 {
            return self.playing;
        }
        let span = self.current_span();
        let forward_end = if span.looping != LoopType::Off {
            span.loop_end
        } else {
            span.frames
        };
        let ahead: u64 = if self.backwards {
            self.position - span.loop_start * ONE
        } else {
            forward_end * ONE - self.position
        };
        if amount < ahead {
            if self.backwards {
                self.position = self.position - amount;
            } else {
                self.position = self.position + amount;
            }
            return true;
        }
        let rest = amount - ahead;
        match span.looping {
            LoopType::Off => {
                self.position = span.frames * ONE;
                self.playing = false;
                self.backwards = false;
            },
            LoopType::Forward => {
                let length = (span.loop_end - span.loop_start) * ONE;
                self.position = span.loop_start * ONE + rest % length;
                self.backwards = false;
            },
            LoopType::PingPong => {
                let length = (span.loop_end - span.loop_start) * ONE;
                let spent = rest % (2 * length);
                let since_end = if self.backwards {
                    (spent + length) % (2 * length)
                } else {
                    spent
                };
                if since_end < length {
                    self.position = span.loop_end * ONE - since_end;
                    self.backwards = true;
                } else {
                    self.position = span.loop_start * ONE + (since_end - length);
                    self.backwards = false;
                }
            },
        }
        self.playing
    }
}

// ---------------------------------------------------------------------------
// Mixing
// ---------------------------------------------------------------------------

/// The sum of two frames, held in the range of 32-bit frames.
pub open spec fn frames_added(a: int, b: int) -> int {
    clamped_frame(a + b)
}

/// `i32::saturating_add`: the sum of its arguments, or the nearest bound of
/// the type where the sum lies outside it.
pub assume_specification[ i32::saturating_add ](x: i32, y: i32) -> (r: i32)
    ensures
        r == if x + y > i32::MAX {
            i32::MAX as int
        } else if x + y < i32::MIN {
            i32::MIN as int
        } else {
            x + y
        },
;

/// Output frame `i` of `n` resampled from `from` in the given way.
pub open spec fn resampled_frame(
    from: Seq<i16>,
    n: int,
    i: int,
    backwards: bool,
    interpolation: Interpolation,
    pingpong: bool,
) -> int {
    match interpolation {
        Interpolation::Nearest => nearest_frame(from, n, i, backwards),
        Interpolation::Linear => linear_frame(from, n, i, backwards),
        Interpolation::Sinc8 => sinc_frame(from, n, i, backwards, 8, pingpong),
        Interpolation::Sinc16 => sinc_frame(from, n, i, backwards, 16, pingpong),
        Interpolation::Sinc32 => sinc_frame(from, n, i, backwards, 32, pingpong),
    }
}

impl<'a> Channel<'a> {
    /// The volume of the channel's sample, or zero where it has none.
    pub open spec fn sample_volume(&self) -> u8 {
        if self.bound() {
            self.module.samples@[self.current_sample_index as int].global_volume
        } else {
            0
        }
    }

    /// The audio of the channel's sample, or nothing where it has none.
    pub open spec fn audio(&self) -> Seq<i16> {
        if self.bound() {
            self.module.samples@[self.current_sample_index as int].audio@
        } else {
            Seq::empty()
        }
    }

    /// Fills `to` with `from` resampled in the given way.
    pub fn interpolate_buffers(&self, from: &[i16], to: &mut [i32], interpolation: Interpolation)
        requires
            1 <= from@.len() <= FRAMES_LIMIT,
            old(to)@.len() <= SEGMENT_LIMIT,
        ensures
            final(to)@.len() == old(to)@.len(),
            forall|i: int|
                0 <= i < final(to)@.len() ==> (#[trigger] final(to)@[i]) == resampled_frame(
                    from@,
                    final(to)@.len() as int,
                    i,
                    self.backwards,
                    interpolation,
                    self.span().looping == LoopType::PingPong,
                ),
    {
        let pingpong = match self.current_span().looping {
            LoopType::PingPong => true,
            _ => false,
        };
        match interpolation {
            Interpolation::Nearest => {
                let len = from.len();
                let n = to.len();
                let backwards = self.backwards;
                let mut i: usize = 0;
                while i < n
                    invariant
                        i <= n,
                        to@.len() == n,
                        from@.len() == len,
                        1 <= len <= FRAMES_LIMIT,
                        n <= SEGMENT_LIMIT,
                        forall|j: int|
                            0 <= j < i ==> (#[trigger] to@[j]) == nearest_frame(
                                from@,
                                n as int,
                                j,
                                backwards,
                            ),
                    decreases n - i,
                {
                    assert(i * len <= (n - 1) * len) by (nonlinear_arith)
                        requires
                            i <= n - 1,
                            len >= 0,
                    ;
                    assert((n - 1) * len <= 0xFFFF_FFFF * 0x1_0000_0000) by (nonlinear_arith)
                        requires
                            n - 1 <= 0xFFFF_FFFF,
                            0 <= len <= 0x1_0000_0000,
                    ;
                    let num = (i as u128) * (len as u128);
                    assert(num / (n as u128) < len) by (nonlinear_arith)
                        requires
                            num <= (n - 1) * len,
                            n > 0,
                            len >= 1,
                    ;
                    let ix = (num / (n as u128)) as usize;
                    let at = if backwards {
                        len - 1 - ix
                    } else {
                        ix
                    };
                    to[i] = (from[at] as i64 * FRAME_GAIN) as i32;
                    i += 1;
                }
            },
            Interpolation::Linear => buf_linear(from, to, self.backwards),
            Interpolation::Sinc8 => buf_sinc(from, to, self.backwards, 8, pingpong),
            Interpolation::Sinc16 => buf_sinc(from, to, self.backwards, 16, pingpong),
            Interpolation::Sinc32 => buf_sinc(from, to, self.backwards, 32, pingpong),
        }
    }

    /// Brings every frame of `at` to the volume of the channel and of its
    /// sample.
    pub fn apply_volumes(&self, at: &mut [i32])
        requires
            self.wf(),
        ensures
            final(at)@.len() == old(at)@.len(),
            forall|i: int|
                0 <= i < final(at)@.len() ==> (#[trigger] final(at)@[i]) == with_volume(
                    old(at)@[i] as int,
                    self.volume as int,
                    self.sample_volume() as int,
                ),
    {
        let sample_volume = match self.sample() {
            Some(s) => s.global_volume,
            None => 0,
        };
        let n = at.len();
        let mut i: usize = 0;
        while i < n
            invariant
                i <= n,
                at@.len() == n,
                self.volume <= VOLUME_MAX,
                sample_volume == self.sample_volume(),
                forall|j: int|
                    0 <= j < i ==> (#[trigger] at@[j]) == with_volume(
                        old(at)@[j] as int,
                        self.volume as int,
                        sample_volume as int,
                    ),
                forall|j: int| i <= j < n ==> at@[j] == old(at)@[j],
            decreases n - i,
        {
            let v = at[i];
            at[i] = apply_volume(v, self.volume, sample_volume);
            i += 1;
        }
    }

    /// The stored frames that a segment reaching `adv` ahead reads: from
    /// the frame that the position lies in up to, and without, the frame
    /// that the position then lies in. Backwards, the other way round.
    pub open spec fn segment_source(self, adv: int) -> (int, int) {
        if self.backwards {
            ((self.position - adv) / (ONE as int), self.position as int / (ONE as int))
        } else {
            (self.position as int / (ONE as int), (self.position + adv) / (ONE as int))
        }
    }

    /// Frame `i` of what the channel adds to the output over a segment of
    /// `seg` frames that reaches `adv` ahead: the stored frames of the
    /// segment resampled to `seg` frames, at the channel's volume. Nothing
    /// where the segment reads no stored frame.
    pub open spec fn segment_frame(
        self,
        seg: int,
        adv: int,
        interpolation: Interpolation,
        i: int,
    ) -> int {
        let (lo, hi) = self.segment_source(adv);
        if lo >= hi {
            0
        } else {
            with_volume(
                resampled_frame(
                    self.audio().subrange(lo, hi),
                    seg,
                    i,
                    self.backwards,
                    interpolation,
                    self.span().looping == LoopType::PingPong,
                ),
                self.volume as int,
                self.sample_volume() as int,
            )
        }
    }

    /// What the channel adds to the output over one segment.
    pub open spec fn segment(self, seg: int, adv: int, interpolation: Interpolation) -> Seq<int> {
        Seq::new(seg as nat, |i: int| self.segment_frame(seg, adv, interpolation, i))
    }

    /// Adds one segment of the channel's voice to the frames of `slab` from
    /// `at` on, and moves the voice on by `adv`.
    pub fn process_segment(
        &mut self,
        seg: usize,
        adv: u64,
        slab: &mut [i32],
        at: usize,
        interpolation: Interpolation,
    )
        requires
            old(self).wf(),
            old(self).playing,
            adv <= old(self).span().ahead(old(self).position, old(self).backwards),
            seg <= SEGMENT_LIMIT,
            at + seg <= old(slab)@.len(),
        ensures
            final(self).wf(),
            *final(self) == old(self).after_advance(adv as int),
            final(slab)@.len() == old(slab)@.len(),
            forall|i: int|
                0 <= i < final(slab)@.len() ==> (#[trigger] final(slab)@[i]) == if at <= i < at
                    + seg {
                    frames_added(
                        old(slab)@[i] as int,
                        old(self).segment_frame(seg as int, adv as int, interpolation, i - at),
                    )
                } else {
                    old(slab)@[i] as int
                },
    {
        let sample = match self.sample() {
            Some(s) => s,
            None => { return ; },
        };
        let span = span_of(sample);
        let total = slab.len();
        let audio_len = sample.audio.len();
        assert(span.frames <= audio_len);
        let ghost before = *self;
        let (lo, hi): (usize, usize) = if self.backwards {
            assert(self.position / ONE <= span.frames);
            (((self.position - adv) / ONE) as usize, (self.position / ONE) as usize)
        } else {
            assert((self.position + adv) / (ONE as int) <= span.frames);
            ((self.position / ONE) as usize, ((self.position + adv) / ONE) as usize)
        };
        assert((lo as int, hi as int) == before.segment_source(adv as int));
        if lo < hi {
            let mut interpolated: Vec<i32> = Vec::new();
            interpolated.resize(seg, 0);
            let from = vstd::slice::slice_subrange(sample.audio.as_slice(), lo, hi);
            assert(from@ == before.audio().subrange(lo as int, hi as int));
            self.interpolate_buffers(from, interpolated.as_mut_slice(), interpolation);
            self.apply_volumes(interpolated.as_mut_slice());
            assert forall|j: int| 0 <= j < seg implies (#[trigger] interpolated@[j])
                == before.segment_frame(seg as int, adv as int, interpolation, j) by {}
            let mut i: usize = 0;
            while i < seg
                invariant
                    i <= seg,
                    interpolated@.len() == seg,
                    at + seg <= slab@.len(),
                    slab@.len() == total,
                    total == old(slab)@.len(),
                    forall|j: int|
                        0 <= j < slab@.len() ==> (#[trigger] slab@[j]) == if at <= j < at + i {
                            frames_added(old(slab)@[j] as int, interpolated@[j - at] as int)
                        } else {
                            old(slab)@[j] as int
                        },
                decreases seg - i,
            {
                let sum = slab[at + i].saturating_add(interpolated[i]);
                slab[at + i] = sum;
                i += 1;
            }
        } else {
            assert forall|j: int| 0 <= j < seg implies before.segment_frame(
                seg as int,
                adv as int,
                interpolation,
                j,
            ) == 0 by {}
            assert forall|v: int| i32::MIN <= v <= i32::MAX implies #[trigger] frames_added(v, 0)
                == v by {}
        }
        self.advance_position(adv);
    }
}

impl<'a> Channel<'a> {
    /// The next segment of a playing voice that has `room` output frames
    /// left to fill: its length in output frames and the distance that the
    /// voice moves over it.
    ///
    /// The segment ends where the voice meets the boundary ahead, and lasts
    /// at least one frame. Where that is more than `room`, it is cut to
    /// `room` and the voice moves as far as its frequency takes it in that
    /// time. A voice of frequency zero stays where it is for all of `room`.
    pub open spec fn plan(self, room: int, samplerate: u32) -> (int, int) {
        let ahead = self.span().ahead(self.position, self.backwards);
        if self.freq == 0 {
            (room, 0)
        } else {
            let want = ahead * samplerate / (self.freq as int);
            let want = if want == 0 {
                1
            } else {
                want
            };
            if want > room {
                (room, room * self.freq / (samplerate as int))
            } else {
                (want, ahead)
            }
        }
    }

    /// What the channel adds to `n` output frames, and the channel
    /// thereafter: segment after segment while the voice plays, silence
    /// once it has stopped.
    pub open spec fn rendered(self, n: int, samplerate: u32, interpolation: Interpolation) -> (
        Seq<int>,
        Channel<'a>,
    )
        decreases n,
    {
        if n <= 0 {
            (Seq::empty(), self)
        } else if !self.playing {
            (Seq::new(n as nat, |i: int| 0int), self)
        } else {
            let (seg, adv) = self.plan(n, samplerate);
            if seg <= 0 || seg > n {
                (Seq::new(n as nat, |i: int| 0int), self)
            } else {
                let (rest, last) = self.after_advance(adv).rendered(
                    n - seg,
                    samplerate,
                    interpolation,
                );
                (self.segment(seg, adv, interpolation) + rest, last)
            }
        }
    }

    /// Computes `plan`.
    fn next_segment(&self, room: usize, samplerate: u32) -> (r: (usize, u64))
        requires
            self.wf(),
            self.playing,
            1 <= room <= SEGMENT_LIMIT,
            samplerate > 0,
        ensures
            (r.0 as int, r.1 as int) == self.plan(room as int, samplerate),
            1 <= r.0 <= room,
            r.1 <= self.span().ahead(self.position, self.backwards),
    {
        let span = self.current_span();
        let forward_end = if span.looping != LoopType::Off {
            span.loop_end
        } else {
            span.frames
        };
        let ahead: u64 = if self.backwards {
            self.position - span.loop_start * ONE
        } else {
            forward_end * ONE - self.position
        };
        if self.freq == 0 {
            return (room, 0);
        }
        let freq = self.freq as u128;
        let rate = samplerate as u128;
        assert(ahead * rate <= 0x1_0000_0000_0000 * 0xFFFF_FFFF) by (nonlinear_arith)
            requires
                ahead <= 0x1_0000_0000_0000,
                rate <= 0xFFFF_FFFF,
        ;
        let want = (ahead as u128) * rate / freq;
        let want: u128 = if want == 0 {
            1
        } else {
            want
        };
        if want > room as u128 {
            assert(room * freq <= 0xFFFF_FFFF * 0x1_0000_0000_0000) by (nonlinear_arith)
                requires
                    room <= 0xFFFF_FFFF,
                    freq <= 0x1_0000_0000_0000,
            ;
            let adv = (room as u128) * freq / rate;
            assert(adv <= ahead) by (nonlinear_arith)
                requires
                    room + 1 <= ahead * rate / (freq as int),
                    adv == room * freq / (rate as int),
                    freq > 0,
                    rate > 0,
                    ahead >= 0,
                    room >= 0,
            ;
            (room, adv as u64)
        } else {
            (want as usize, ahead)
        }
    }

    /// Adds the channel's voice to every frame of `slab`, which is one
    /// stretch of output at `samplerate` frames a second.
    pub fn add_to_slab(&mut self, slab: &mut [i32], samplerate: u32, interpolation: Interpolation)
        requires
            old(self).wf(),
            old(slab)@.len() <= SEGMENT_LIMIT,
            samplerate > 0,
        ensures
            final(self).wf(),
            *final(self) == old(self).rendered(
                old(slab)@.len() as int,
                samplerate,
                interpolation,
            ).1,
            final(slab)@.len() == old(slab)@.len(),
            forall|i: int|
                0 <= i < final(slab)@.len() ==> (#[trigger] final(slab)@[i]) == frames_added(
                    old(slab)@[i] as int,
                    old(self).rendered(old(slab)@.len() as int, samplerate, interpolation).0[i],
                ),
    {
        let n = slab.len();
        let ghost whole = self.rendered(n as int, samplerate, interpolation);
        let ghost done: Seq<int> = Seq::empty();
        let mut pos: usize = 0;
        assert(done + whole.0 =~= whole.0);
        assert forall|v: int| i32::MIN <= v <= i32::MAX implies #[trigger] frames_added(v, 0)
            == v by {}
        while pos < n && self.playing
            invariant
                pos <= n <= SEGMENT_LIMIT,
                samplerate > 0,
                slab@.len() == n,
                n == old(slab)@.len(),
                self.wf(),
                done.len() == pos,
                whole.1 == self.rendered(n - pos, samplerate, interpolation).1,
                whole.0 == done + self.rendered(n - pos, samplerate, interpolation).0,
                forall|i: int|
                    0 <= i < n ==> (#[trigger] slab@[i]) == if i < pos {
                        frames_added(old(slab)@[i] as int, done[i])
                    } else {
                        old(slab)@[i] as int
                    },
            decreases n - pos,
        {
            let ghost before = *self;
            let (seg, adv) = self.next_segment(n - pos, samplerate);
            self.process_segment(seg, adv, slab, pos, interpolation);
            proof {
                let piece = before.segment(seg as int, adv as int, interpolation);
                let rest = self.rendered(n - pos - seg, samplerate, interpolation);
                assert(before.rendered(n - pos, samplerate, interpolation) == (
                    piece + rest.0,
                    rest.1,
                ));
                assert(done + (piece + rest.0) =~= (done + piece) + rest.0);
                done = done + piece;
            }
            pos += seg;
        }
        proof {
            let rest = self.rendered(n - pos, samplerate, interpolation);
            assert(rest.1 == *self);
            assert forall|i: int| 0 <= i < n implies (#[trigger] slab@[i]) == frames_added(
                old(slab)@[i] as int,
                whole.0[i],
            ) by {
                if i >= pos {
                    assert(whole.0[i] == rest.0[i - pos]);
                    assert(rest.0[i - pos] == 0);
                }
            }
        }
    }
}

// ---------------------------------------------------------------------------
// What a row does to a channel
// ---------------------------------------------------------------------------

/// Whether a cell asks for a tone portamento, in its effect or in its
/// volume column.
pub open spec fn glides(col: Column) -> bool {
    col.effect is TonePorta || col.vol is TonePorta
}

impl<'a> Channel<'a> {
    /// The channel brought back inside the stretch that its sample lets it
    /// play: the position held inside the audio; a voice that has met or
    /// passed its forward boundary sent to the loop start, or stopped where
    /// there is no loop; a voice moving backwards outside a ping-pong loop
    /// turned forwards.
    pub open spec fn settled(self) -> Channel<'a> {
        let span = self.span();
        let position = if self.position > span.frames * ONE {
            (span.frames * ONE) as u64
        } else {
            self.position
        };
        if !self.playing {
            Channel { position, ..self }
        } else if self.backwards && span.holds(position, true) {
            Channel { position, ..self }
        } else if position < span.forward_end() * ONE {
            Channel { position, backwards: false, ..self }
        } else if span.looping != LoopType::Off {
            Channel { position: (span.loop_start * ONE) as u64, backwards: false, ..self }
        } else {
            Channel { position, backwards: false, playing: false, ..self }
        }
    }

    /// Computes `settled`.
    fn settle(&mut self)
        requires
            old(self).volume <= VOLUME_MAX,
            old(self).freq <= FREQ_LIMIT,
        ensures
            final(self).wf(),
            *final(self) == old(self).settled(),
    {
        let span = self.current_span();
        if self.position > span.frames * ONE {
            self.position = span.frames * ONE;
        }
        if !self.playing {
            return ;
        }
        if self.backwards && span.looping == LoopType::PingPong && span.loop_start * ONE
            < self.position && self.position <= span.loop_end * ONE {
            return ;
        }
        let forward_end = if span.looping != LoopType::Off {
            span.loop_end
        } else {
            span.frames
        };
        self.backwards = false;
        if self.position < forward_end * ONE {
        } else if span.looping != LoopType::Off {
            self.position = span.loop_start * ONE;
        } else {
            self.playing = false;
        }
    }

    /// The sample index that an instrument number binds: one less than the
    /// number, held inside the module's samples where there are any.
    pub open spec fn bound_index(self, instrument: u8) -> u8 {
        let wanted = instrument - 1;
        if self.module.samples@.len() > 0 && wanted >= self.module.samples@.len() {
            (self.module.samples@.len() - 1) as u8
        } else {
            wanted as u8
        }
    }

    /// The channel after the volume and instrument columns of a cell: a
    /// volume in the volume column is taken; an instrument is bound, and
    /// with nothing in the volume column the channel takes the default
    /// volume of its new sample.
    pub open spec fn after_columns(self, col: Column) -> Channel<'a> {
        let volume = match col.vol {
            VolEffect::Volume(v) => whole_volume(v) as u32,
            _ => self.volume,
        };
        if col.instrument == 0 {
            Channel { volume, ..self }
        } else {
            let index = self.bound_index(col.instrument);
            let bound = Channel { current_sample_index: index, volume, ..self };
            if col.vol is Empty && bound.bound() {
                Channel {
                    volume: whole_volume(self.module.samples@[index as int].default_volume) as u32,
                    ..bound
                }
            } else {
                bound
            }
        }
    }

    /// The channel after the note column of a cell. A key starts the voice
    /// at the frequency of the key, from the start of the sample or, with
    /// a sample offset on the cell, from 256 frames times the offset given
    /// or remembered; but with a tone portamento on the cell the voice goes
    /// on as it is. A cut or an off stops the voice.
    pub open spec fn after_note(self, col: Column) -> Channel<'a> {
        match col.note {
            Note::On(key) => if glides(col) {
                self
            } else {
                let offset = match col.effect {
                    Effect::SampleOffset(v) => Self::recalled(v, self.offset_memory),
                    _ => self.offset_memory,
                };
                Channel {
                    playing: self.bound(),
                    backwards: false,
                    offset_memory: offset,
                    position: match col.effect {
                        Effect::SampleOffset(_) => (offset as u64 * 256 * ONE) as u64,
                        _ => 0,
                    },
                    freq: if self.bound() {
                        note_frequency(
                            self.module.samples@[self.current_sample_index as int].base_frequency,
                            key,
                        ) as u64
                    } else {
                        self.freq
                    },
                    ..self
                }
            },
            Note::Cut | Note::Off => Channel { playing: false, ..self },
            _ => self,
        }
    }

    /// The channel after the onset of a row that holds `col` for it.
    pub open spec fn after_row(self, col: Column) -> Channel<'a> {
        self.after_columns(col).after_note(col).settled()
    }

    /// Applies the onset of a row that holds `col` for this channel.
    pub fn play_cell(&mut self, col: &Column)
        requires
            old(self).wf(),
        ensures
            final(self).wf(),
            *final(self) == old(self).after_row(*col),
    {
        let module: &'a Module = self.module;
        match col.vol {
            VolEffect::Volume(v) => { self.volume = volume_of(v); },
            _ => {},
        }
        if col.instrument != 0 {
            let wanted = (col.instrument - 1) as usize;
            let count = module.samples.len();
            let index = if count > 0 && wanted >= count {
                count - 1
            } else {
                wanted
            };
            self.current_sample_index = index as u8;
            if matches!(col.vol, VolEffect::Empty) {
                match self.sample() {
                    Some(s) => { self.volume = volume_of(s.default_volume); },
                    None => {},
                }
            }
        }
        match col.note {
            Note::On(key) => {
                if !matches!(col.effect, Effect::TonePorta(_)) && !matches!(
                    col.vol,
                    VolEffect::TonePorta(_)
                ) {
                    self.backwards = false;
                    match col.effect {
                        Effect::SampleOffset(v) => {
                            if v != 0 {
                                self.offset_memory = v;
                            }
                            self.position = (self.offset_memory as u64) * 256 * ONE;
                        },
                        _ => { self.position = 0; },
                    }
                    match self.sample() {
                        Some(s) => {
                            self.playing = true;
                            self.freq = note_freq(s.base_frequency, key);
                        },
                        None => { self.playing = false; },
                    }
                }
            },
            Note::Cut => { self.playing = false; },
            Note::Off => { self.playing = false; },
            _ => {},
        }
        self.settle();
    }

    /// The channel after one tick of the effect of `col`.
    pub open spec fn after_tick(self, col: Column, linear: bool) -> Channel<'a> {
        match col.effect {
            Effect::PortaUp(v) => self.after_porta(linear, v, true),
            Effect::PortaDown(v) => self.after_porta(linear, v, false),
            Effect::TonePorta(v) => self.after_tone_portamento(col.note, linear, v),
            Effect::VolSlide(v) => self.after_vol_slide(v),
            Effect::Retrig(v) => self.after_retrigger(v),
            _ => self,
        }
    }

    /// Applies one tick of the effect of `col`.
    pub fn tick_cell(&mut self, col: &Column, linear: bool)
        requires
            old(self).wf(),
        ensures
            final(self).wf(),
            *final(self) == old(self).after_tick(*col, linear),
    {
        match col.effect {
            Effect::PortaUp(v) => self.porta_up(linear, v),
            Effect::PortaDown(v) => self.porta_down(linear, v),
            Effect::TonePorta(v) => self.tone_portamento(col.note, linear, v),
            Effect::VolSlide(v) => self.vol_slide(v),
            Effect::Retrig(v) => self.retrigger(v),
            _ => {},
        }
    }
}

// ---------------------------------------------------------------------------
// Laws
// ---------------------------------------------------------------------------

/// The channel after the effects of `cols` have acted on it, one tick each,
/// in order.
pub open spec fn after_ticks<'a>(channel: Channel<'a>, cols: Seq<Column>, linear: bool) -> Channel<
    'a,
>
    decreases cols.len(),
{
    if cols.len() == 0 {
        channel
    } else {
        after_ticks(channel, cols.drop_last(), linear).after_tick(cols.last(), linear)
    }
}

/// The volume of a channel stays between 0 and 64 over any row onset and
/// any tick of any effect.
pub proof fn lemma_volume_in_range<'a>(channel: Channel<'a>, col: Column, linear: bool)
    requires
        channel.volume <= VOLUME_MAX,
    ensures
        0 <= channel.after_tick(col, linear).volume <= VOLUME_MAX,
        0 <= channel.after_row(col).volume <= VOLUME_MAX,
{
}

/// The volume of a channel stays between 0 and 64 over any sequence of
/// effect ticks.
pub proof fn lemma_volume_in_range_over_ticks<'a>(
    channel: Channel<'a>,
    cols: Seq<Column>,
    linear: bool,
)
    requires
        channel.volume <= VOLUME_MAX,
    ensures
        0 <= after_ticks(channel, cols, linear).volume <= VOLUME_MAX,
    decreases cols.len(),
{
    if cols.len() > 0 {
        lemma_volume_in_range_over_ticks(channel, cols.drop_last(), linear);
        lemma_volume_in_range(after_ticks(channel, cols.drop_last(), linear), cols.last(), linear);
    }
}

/// The position of a well-formed channel lies inside the audio of its
/// sample, and that of a voice that plays a sample without loop lies
/// before its end.
pub proof fn lemma_position_in_audio<'a>(channel: Channel<'a>)
    requires
        channel.wf(),
    ensures
        0 <= channel.position <= channel.audio().len() * ONE,
        channel.playing && channel.span().looping == LoopType::Off ==> channel.position
            < channel.audio().len() * ONE,
        channel.playing && channel.span().looping != LoopType::Off ==> channel.position
            <= channel.span().loop_end * ONE,
{
}

/// A well-formed channel stays well formed however far its voice moves.
pub proof fn lemma_advance_keeps_wf<'a>(channel: Channel<'a>, amount: int)
    requires
        channel.wf(),
    ensures
        channel.after_advance(amount).wf(),
        channel.after_advance(amount).module == channel.module,
        channel.after_advance(amount).current_sample_index == channel.current_sample_index,
{
}

/// The next segment of a playing voice lasts at least one frame and at most
/// the room there is, and moves the voice no further than its boundary.
pub proof fn lemma_plan_in_range<'a>(channel: Channel<'a>, room: int, samplerate: u32)
    requires
        channel.wf(),
        channel.playing,
        room >= 1,
        samplerate > 0,
    ensures
        1 <= channel.plan(room, samplerate).0 <= room,
        0 <= channel.plan(room, samplerate).1 <= channel.span().ahead(
            channel.position,
            channel.backwards,
        ),
{
    let ahead = channel.span().ahead(channel.position, channel.backwards);
    if channel.freq != 0 {
        let freq = channel.freq as int;
        let rate = samplerate as int;
        let want = ahead * rate / freq;
        assert(want >= 0) by (nonlinear_arith)
            requires
                want == ahead * rate / freq,
                ahead >= 0,
                rate > 0,
                freq > 0,
        ;
        if want > room {
            assert(0 <= room * freq / rate <= ahead) by (nonlinear_arith)
                requires
                    room + 1 <= ahead * rate / freq,
                    freq > 0,
                    rate > 0,
                    ahead >= 0,
                    room >= 0,
            ;
        }
    }
}

/// A voice in a ping-pong loop turns round at either end of the loop: one
/// that moves forwards and reaches the loop end stands there and moves
/// backwards; one that moves backwards and reaches the loop start stands
/// there and moves forwards. It goes on playing.
pub proof fn lemma_ping_pong_turns<'a>(channel: Channel<'a>)
    requires
        channel.wf(),
        channel.playing,
        channel.span().looping == LoopType::PingPong,
    ensures
        ({
            let ahead = channel.span().ahead(channel.position, channel.backwards);
            let turned = channel.after_advance(ahead);
            &&& ahead > 0
            &&& turned.playing
            &&& turned.backwards == !channel.backwards
            &&& !channel.backwards ==> turned.position == channel.span().loop_end * ONE
            &&& channel.backwards ==> turned.position == channel.span().loop_start * ONE
        }),
{
    let span = channel.span();
    let length = span.loop_length();
    assert(length > 0);
    vstd::arithmetic::div_mod::lemma_small_mod(0, (2 * length) as nat);
    vstd::arithmetic::div_mod::lemma_small_mod(length as nat, (2 * length) as nat);
}

/// A channel goes on playing its module, whatever it plays of it.
pub proof fn lemma_rendered_keeps_module<'a>(
    channel: Channel<'a>,
    n: int,
    samplerate: u32,
    interpolation: Interpolation,
)
    ensures
        channel.rendered(n, samplerate, interpolation).1.module == channel.module,
    decreases n,
{
    if n > 0 && channel.playing {
        let (seg, adv) = channel.plan(n, samplerate);
        if 0 < seg <= n {
            lemma_rendered_keeps_module(
                channel.after_advance(adv),
                n - seg,
                samplerate,
                interpolation,
            );
        }
    }
}

/// A well-formed channel stays well formed over any stretch of output.
pub proof fn lemma_rendered_keeps_wf<'a>(
    channel: Channel<'a>,
    n: int,
    samplerate: u32,
    interpolation: Interpolation,
)
    requires
        channel.wf(),
        samplerate > 0,
    ensures
        channel.rendered(n, samplerate, interpolation).1.wf(),
    decreases n,
{
    if n > 0 && channel.playing {
        let (seg, adv) = channel.plan(n, samplerate);
        lemma_plan_in_range(channel, n, samplerate);
        lemma_advance_keeps_wf(channel, adv);
        lemma_rendered_keeps_wf(channel.after_advance(adv), n - seg, samplerate, interpolation);
    }
}

/// A well-formed channel stays well formed over any tick of any effect.
pub proof fn lemma_tick_keeps_wf<'a>(channel: Channel<'a>, col: Column, linear: bool)
    requires
        channel.wf(),
    ensures
        channel.after_tick(col, linear).wf(),
{
    match col.effect {
        Effect::PortaUp(v) => {
            lemma_slid_in_range(
                channel.freq as int,
                linear,
                Channel::recalled(v, channel.porta_memory),
                true,
            );
        },
        Effect::PortaDown(v) => {
            lemma_slid_in_range(
                channel.freq as int,
                linear,
                Channel::recalled(v, channel.porta_memory),
                false,
            );
        },
        Effect::TonePorta(v) => {
            let value = Channel::recalled(v, channel.porta_memory);
            lemma_scaled_in_range(channel.freq as int, 4 * (value as int));
            lemma_scaled_in_range(channel.freq as int, -4 * (value as int));
            lemma_period_frequency_in_range(
                moved_period(amiga_period(channel.freq as int), value as int),
            );
            lemma_period_frequency_in_range(
                moved_period(amiga_period(channel.freq as int), -(value as int)),
            );
            if channel.bound() {
                lemma_note_frequency_in_range(
                    channel.module.samples@[channel.current_sample_index as int].base_frequency,
                    channel.target_key(col.note),
                );
            }
        },
        _ => {},
    }
}

/// A well-formed channel stays well formed over the onset of any row.
pub proof fn lemma_row_keeps_wf<'a>(channel: Channel<'a>, col: Column)
    requires
        channel.wf(),
    ensures
        channel.after_row(col).wf(),
{
    let bound = channel.after_columns(col);
    match col.note {
        Note::On(key) => {
            if bound.bound() {
                lemma_note_frequency_in_range(
                    bound.module.samples@[bound.current_sample_index as int].base_frequency,
                    key,
                );
            }
        },
        _ => {},
    }
}

} // verus!
