//! The sequencer: the clock of ticks and rows that drives the channels
//! through a module and fills the output.

use super::channel::{
    frames_added, lemma_rendered_keeps_module, lemma_rendered_keeps_wf, lemma_row_keeps_wf,
    lemma_tick_keeps_wf, Channel,
};
use super::message::Message;
use super::module::{channel_count, Column, Effect, Module, Pattern, ORDER_END, ORDER_SKIP};
use super::resample::SEGMENT_LIMIT;
use vstd::prelude::*;

verus! {

/// The row number that stands for "before the first row".
pub const ROW_NONE: u16 = 65535;

/// How sample data is resampled to the output rate.
#[derive(Debug, Clone, Copy, PartialEq, Eq, Structural)]
pub enum Interpolation {
    /// The nearest stored frame.
    Nearest,
    /// A straight line between neighbouring frames.
    Linear,
    /// A windowless sinc over 8 frames to each side.
    Sinc8,
    /// A windowless sinc over 16 frames to each side.
    Sinc16,
    /// A windowless sinc over 32 frames to each side.
    Sinc32,
}

impl Default for Interpolation {
    fn default() -> (r: Self)
        ensures
            r == Interpolation::Nearest,
    {
        Interpolation::Nearest
    }
}

// ---------------------------------------------------------------------------
// The state of a player
// ---------------------------------------------------------------------------

/// Plays a module: owns the clock of ticks and rows and one channel for
/// each column of the module's widest row.
pub struct Player<'a> {
    pub module: &'a Module,
    /// Output frames a second.
    pub samplerate: u32,
    pub interpolation: Interpolation,
    /// Index into the playlist.
    pub current_position: u8,
    /// The pattern that the playlist names at the current position.
    pub current_pattern: u8,
    /// Row of the current pattern, or `ROW_NONE` before the first row.
    pub current_row: u16,
    pub current_tempo: u8,
    /// Ticks to a row.
    pub current_speed: u8,
    /// Output frames since the last tick boundary.
    pub tick_counter: u32,
    /// Ticks since the last row began.
    pub ticks_passed: u8,
    /// Output frames to a tick.
    pub tick_slab: u32,
    pub channels: Vec<Channel<'a>>,
    /// Whether the end of the song has been reached, or playback stopped.
    pub ended: bool,
    /// Whether playback is paused.
    pub paused: bool,
    /// A message that waits for the next tick boundary.
    pub pending: Option<Message>,
}

/// Everything that a player holds, as plain values.
pub struct PlayerState<'a> {
    pub module: &'a Module,
    pub samplerate: u32,
    pub interpolation: Interpolation,
    pub current_position: u8,
    pub current_pattern: u8,
    pub current_row: u16,
    pub current_tempo: u8,
    pub current_speed: u8,
    pub tick_counter: u32,
    pub ticks_passed: u8,
    pub tick_slab: u32,
    pub channels: Seq<Channel<'a>>,
    pub ended: bool,
    pub paused: bool,
    pub pending: Option<Message>,
}

/// Where the sequencer stands after a move: on a row of a pattern, or past
/// the end of the song.
pub enum Cursor {
    At { position: u8, pattern: u8, row: u16 },
    End,
}

/// What the effects of a row set for the sequencer: speed, tempo, and the
/// targets of a position jump and of a pattern break.
pub struct RowControl {
    pub speed: u8,
    pub tempo: u8,
    pub jump: Option<u8>,
    pub brk: Option<u8>,
}

/// Output frames to a tick at a tempo: `samplerate * 2.5 / tempo`, rounded
/// down, but at least one and at most what 32 bits hold. At tempo zero,
/// the most.
pub open spec fn tick_length(samplerate: u32, tempo: u8) -> int {
    if tempo == 0 {
        0xFFFF_FFFF
    } else {
        let exact = samplerate as int * 5 / (2 * tempo as int);
        if exact < 1 {
            1
        } else if exact > 0xFFFF_FFFF {
            0xFFFF_FFFF
        } else {
            exact
        }
    }
}

/// What the first `n` cells of a row set for the sequencer, starting from
/// `start`. Of several cells that set the same thing, the last wins.
pub open spec fn scanned(row: Seq<Column>, n: int, start: RowControl) -> RowControl
    decreases n,
{
    if n <= 0 {
        start
    } else {
        let before = scanned(row, n - 1, start);
        match row[n - 1].effect {
            Effect::SetSpeed(v) => RowControl { speed: v, ..before },
            Effect::SetTempo(v) => RowControl { tempo: v, ..before },
            Effect::PosJump(v) => RowControl { jump: Some(v), ..before },
            Effect::PatBreak(v) => RowControl { brk: Some(v), ..before },
            _ => before,
        }
    }
}

/// The first row at or after row `row` of the order at `position` that
/// exists: orders that skip, that name no pattern of the module, or whose
/// pattern has no such row are passed over, each to the first row of the
/// next order. The song ends at the end-of-song marker and at the end of
/// the playlist.
pub open spec fn settled_cursor(module: &Module, position: int, row: int) -> Cursor
    decreases 256 - position,
{
    if position < 0 || position >= 256 || position >= module.playlist@.len() {
        Cursor::End
    } else {
        let pattern = module.playlist@[position];
        if pattern == ORDER_END {
            Cursor::End
        } else if pattern == ORDER_SKIP || pattern >= module.patterns@.len() || row < 0 || row
            >= module.patterns@[pattern as int]@.len() || row >= ROW_NONE {
            settled_cursor(module, position + 1, 0)
        } else {
            Cursor::At { position: position as u8, pattern, row: row as u16 }
        }
    }
}

/// The channels after each has been changed by the cell of `row` that
/// belongs to it. Channels beyond the row stay as they are.
pub open spec fn channels_changed<'a>(
    channels: Seq<Channel<'a>>,
    row: Seq<Column>,
    change: spec_fn(Channel<'a>, Column) -> Channel<'a>,
) -> Seq<Channel<'a>> {
    Seq::new(
        channels.len(),
        |i: int|
            if i < row.len() {
                change(channels[i], row[i])
            } else {
                channels[i]
            },
    )
}

/// Whether every channel is well formed.
pub open spec fn all_wf<'a>(channels: Seq<Channel<'a>>) -> bool {
    forall|i: int| 0 <= i < channels.len() ==> (#[trigger] channels[i]).wf()
}

/// A stretch of silence.
pub open spec fn silence(n: int) -> Seq<int> {
    Seq::new(n as nat, |i: int| 0int)
}

/// The output of `take` frames after the first `upto` channels have been
/// added to silence, one after the other.
pub open spec fn mixed<'a>(
    channels: Seq<Channel<'a>>,
    upto: int,
    take: int,
    samplerate: u32,
    interpolation: Interpolation,
) -> Seq<int>
    decreases upto,
{
    if upto <= 0 {
        silence(take)
    } else {
        let below = mixed(channels, upto - 1, take, samplerate, interpolation);
        let voice = channels[upto - 1].rendered(take, samplerate, interpolation).0;
        Seq::new(take as nat, |i: int| frames_added(below[i], voice[i]))
    }
}

impl<'a> PlayerState<'a> {
    /// Whether the sequencer stands on a row that exists.
    pub open spec fn on_row(&self) -> bool {
        &&& self.current_pattern < self.module.patterns@.len()
        &&& self.current_row < self.module.patterns@[self.current_pattern as int]@.len()
    }

    /// The cells of the row that the sequencer stands on.
    pub open spec fn row(&self) -> Seq<Column> {
        self.module.patterns@[self.current_pattern as int]@[self.current_row as int]@
    }

    /// What holds of a player between any two of its steps: the tick length
    /// is that of the tempo, the frame counter lies inside the tick, every
    /// channel is well formed, and the sequencer stands before the first
    /// row, on a row that exists, or at the end.
    pub open spec fn wf(&self) -> bool {
        &&& self.samplerate > 0
        &&& self.tick_slab == tick_length(self.samplerate, self.current_tempo)
        &&& self.tick_counter < self.tick_slab
        &&& self.ticks_passed < 255
        &&& all_wf(self.channels)
        &&& (self.ended || self.current_row == ROW_NONE || self.on_row())
    }

    /// Whether every channel plays the player's module.
    pub open spec fn owns_channels(&self) -> bool {
        forall|i: int|
            0 <= i < self.channels.len() ==> (#[trigger] self.channels[i]).module == self.module
    }

    /// The player moved to `cursor`.
    pub open spec fn landed(self, cursor: Cursor) -> PlayerState<'a> {
        match cursor {
            Cursor::At { position, pattern, row } => PlayerState {
                current_position: position,
                current_pattern: pattern,
                current_row: row,
                ..self
            },
            Cursor::End => PlayerState { ended: true, ..self },
        }
    }

    /// The player at a new tempo. A tick that has already lasted as long
    /// as ticks now do ends with its next frame.
    pub open spec fn with_tempo(self, tempo: u8) -> PlayerState<'a> {
        let length = tick_length(self.samplerate, tempo);
        PlayerState {
            current_tempo: tempo,
            tick_slab: length as u32,
            tick_counter: if self.tick_counter >= length {
                (length - 1) as u32
            } else {
                self.tick_counter
            },
            ..self
        }
    }

    /// The player after `message` has taken effect: a stop ends playback,
    /// a pause holds it, a resume lets it go on.
    pub open spec fn with_message(self, message: Message) -> PlayerState<'a> {
        match message {
            Message::Stop => PlayerState { ended: true, pending: None, ..self },
            Message::Pause => PlayerState { paused: true, pending: None, ..self },
            Message::Resume => PlayerState { paused: false, pending: None, ..self },
        }
    }

    /// The player after `message` has been handed to it: on a tick boundary
    /// the message takes effect at once, inside a tick it waits for the
    /// next boundary, in place of any message that waits already.
    pub open spec fn after_message(self, message: Message) -> PlayerState<'a> {
        if self.tick_counter == 0 {
            self.with_message(message)
        } else {
            PlayerState { pending: Some(message), ..self }
        }
    }

    /// The player after the message that waits, if any, has taken effect.
    pub open spec fn after_pending(self) -> PlayerState<'a> {
        match self.pending {
            Some(message) => self.with_message(message),
            None => self,
        }
    }

    /// The player after it has moved on by a row.
    ///
    /// From before the first row it moves to the first row of the current
    /// order. From a row it takes the speed and tempo that the row sets and
    /// moves to the next row; a position jump sends it to the first row of
    /// the order named; a pattern break sends it to the row named of the
    /// order after. Where that row does not exist it goes on to the first
    /// that does, and the song ends where the playlist does.
    pub open spec fn after_advance_row(self) -> PlayerState<'a> {
        if self.ended {
            self
        } else if self.current_row == ROW_NONE || !self.on_row() {
            PlayerState { ticks_passed: 0, ..self }.landed(
                settled_cursor(self.module, self.current_position as int, 0),
            )
        } else {
            let row = self.row();
            let control = scanned(
                row,
                row.len() as int,
                RowControl {
                    speed: self.current_speed,
                    tempo: self.current_tempo,
                    jump: None,
                    brk: None,
                },
            );
            let (position, row) = match control.jump {
                Some(p) => (p as int, 0int),
                None => (self.current_position as int, self.current_row + 1),
            };
            let (position, row) = match control.brk {
                Some(r) => (position + 1, r as int),
                None => (position, row),
            };
            PlayerState { ticks_passed: 0, current_speed: control.speed, ..self }.with_tempo(
                control.tempo,
            ).landed(settled_cursor(self.module, position, row))
        }
    }

    /// The player after the onset of the row it stands on: every channel
    /// that the row has a cell for takes its cell.
    pub open spec fn after_play_row(self) -> PlayerState<'a> {
        if self.ended || self.current_row == ROW_NONE || !self.on_row() {
            self
        } else {
            PlayerState {
                channels: channels_changed(
                    self.channels,
                    self.row(),
                    |c: Channel<'a>, col: Column| c.after_row(col),
                ),
                ..self
            }
        }
    }

    /// The player after one tick of the effects of the row it stands on.
    pub open spec fn after_process_tick(self) -> PlayerState<'a> {
        if self.ended || self.current_row == ROW_NONE || !self.on_row() {
            self
        } else {
            let linear = self.module.linear_freq_slides;
            PlayerState {
                channels: channels_changed(
                    self.channels,
                    self.row(),
                    |c: Channel<'a>, col: Column| c.after_tick(col, linear),
                ),
                ..self
            }
        }
    }

    /// The player after a tick boundary: one more tick has passed; once as
    /// many have passed as the speed says, the player moves on by a row and
    /// plays its onset; then the effects of the row act for this tick.
    pub open spec fn after_tick(self) -> PlayerState<'a> {
        if self.ticks_passed + 1 >= self.current_speed {
            self.after_advance_row().after_play_row().after_process_tick()
        } else {
            PlayerState {
                ticks_passed: (self.ticks_passed + 1) as u8,
                ..self
            }.after_process_tick()
        }
    }

    /// The channels after each has played `take` frames.
    pub open spec fn channels_after(self, take: int) -> Seq<Channel<'a>> {
        Seq::new(
            self.channels.len(),
            |i: int| self.channels[i].rendered(take, self.samplerate, self.interpolation).1,
        )
    }

    /// What the channels add up to over the next `take` frames: each adds
    /// its voice to silence, in channel order.
    pub open spec fn chunk_frames(self, take: int) -> Seq<int> {
        mixed(
            self.channels,
            self.channels.len() as int,
            take,
            self.samplerate,
            self.interpolation,
        )
    }

    /// The player after the next `take` frames, which do not reach past the
    /// end of the tick: every channel has played them, and where they end
    /// the tick the player has done what `after_tick` says, and then what a
    /// message that waits asks for.
    pub open spec fn after_chunk(self, take: int) -> PlayerState<'a> {
        let played = PlayerState {
            channels: self.channels_after(take),
            tick_counter: (self.tick_counter + take) as u32,
            ..self
        };
        if played.tick_counter == played.tick_slab {
            PlayerState { tick_counter: 0, ..played }.after_tick().after_pending()
        } else {
            played
        }
    }

    /// How many of the next `n` frames lie before the end of the tick.
    pub open spec fn chunk(self, n: int) -> int {
        let room = self.tick_slab - self.tick_counter;
        if room < n {
            room
        } else {
            n
        }
    }

    /// The next `n` frames of output and the player thereafter.
    ///
    /// The output is made tick by tick: up to each tick boundary in turn
    /// the frames are what `chunk_frames` says and the player moves on as
    /// `after_chunk` says. Once the song has ended, and while playback is
    /// paused, the output is silence and nothing moves.
    pub open spec fn render(self, n: int) -> (Seq<int>, PlayerState<'a>)
        decreases n,
    {
        if n <= 0 {
            (Seq::empty(), self)
        } else if self.ended || self.paused || self.tick_counter >= self.tick_slab {
            (silence(n), self)
        } else {
            let take = self.chunk(n);
            let (rest, last) = self.after_chunk(take).render(n - take);
            (self.chunk_frames(take) + rest, last)
        }
    }
}

impl<'a> View for Player<'a> {
    type V = PlayerState<'a>;

    open spec fn view(&self) -> PlayerState<'a> {
        PlayerState {
            module: self.module,
            samplerate: self.samplerate,
            interpolation: self.interpolation,
            current_position: self.current_position,
            current_pattern: self.current_pattern,
            current_row: self.current_row,
            current_tempo: self.current_tempo,
            current_speed: self.current_speed,
            tick_counter: self.tick_counter,
            ticks_passed: self.ticks_passed,
            tick_slab: self.tick_slab,
            channels: self.channels@,
            ended: self.ended,
            paused: self.paused,
            pending: self.pending,
        }
    }
}

// ---------------------------------------------------------------------------
// Playing
// ---------------------------------------------------------------------------

/// The number of channels that a module needs: the width of the widest row
/// among its first `n` patterns.
pub open spec fn module_width(patterns: Seq<Pattern>, n: int) -> nat
    decreases n,
{
    if n <= 0 {
        0
    } else {
        let rest = module_width(patterns, n - 1);
        let here = channel_count(patterns[n - 1]@);
        if here > rest {
            here
        } else {
            rest
        }
    }
}

/// Computes `channel_count`.
fn pattern_width(pattern: &Pattern) -> (r: usize)
    ensures
        r == channel_count(pattern@),
{
    let mut widest: usize = 0;
    let mut i: usize = 0;
    while i < pattern.len()
        invariant
            i <= pattern@.len(),
            widest == channel_count(pattern@.subrange(0, i as int)),
        decreases pattern@.len() - i,
    {
        assert(pattern@.subrange(0, i + 1).drop_last() =~= pattern@.subrange(0, i as int));
        let here = pattern[i].len();
        if here > widest {
            widest = here;
        }
        i += 1;
    }
    assert(pattern@.subrange(0, i as int) =~= pattern@);
    widest
}

/// Computes `tick_length`.
fn tick_length_of(samplerate: u32, tempo: u8) -> (r: u32)
    ensures
        r == tick_length(samplerate, tempo),
        r >= 1,
{
    if tempo == 0 {
        return 0xFFFF_FFFF;
    }
    let exact = (samplerate as u64) * 5 / (2 * tempo as u64);
    if exact < 1 {
        1
    } else if exact > 0xFFFF_FFFF {
        0xFFFF_FFFF
    } else {
        exact as u32
    }
}

/// Computes `settled_cursor`.
fn settle_cursor(module: &Module, from_position: usize, from_row: usize) -> (r: Cursor)
    requires
        from_position <= 256,
    ensures
        r == settled_cursor(module, from_position as int, from_row as int),
        r matches Cursor::At { position: p, pattern, row: w } ==> {
            &&& p < module.playlist@.len()
            &&& module.playlist@[p as int] == pattern
            &&& pattern < module.patterns@.len()
            &&& w < module.patterns@[pattern as int]@.len()
        },
{
    let mut position = from_position;
    let mut row = from_row;
    loop
        invariant
            position <= 256,
            settled_cursor(module, position as int, row as int) == settled_cursor(
                module,
                from_position as int,
                from_row as int,
            ),
        decreases 256 - position,
    {
        if position >= 256 || position >= module.playlist.len() {
            return Cursor::End;
        }
        let pattern = module.playlist[position];
        if pattern == ORDER_END {
            return Cursor::End;
        }
        if pattern == ORDER_SKIP || pattern as usize >= module.patterns.len() || row
            >= module.patterns[pattern as usize].len() || row >= ROW_NONE as usize {
            position += 1;
            row = 0;
        } else {
            return Cursor::At { position: position as u8, pattern, row: row as u16 };
        }
    }
}

impl<'a> Player<'a> {
    /// A player at the start of `module`: before the first row of the first
    /// order, at the module's tempo and speed, with one channel at rest for
    /// each column of the module's widest row, and with linear
    /// interpolation.
    pub fn from_module(module: &'a Module, samplerate: u32) -> (r: Player<'a>)
        requires
            samplerate > 0,
        ensures
            r@.wf(),
            r@.owns_channels(),
            r.module == module,
            r.samplerate == samplerate,
            r.interpolation == Interpolation::Linear,
            r.current_position == 0,
            r.current_pattern == if module.playlist@.len() > 0 {
                module.playlist@[0]
            } else {
                ORDER_END
            },
            r.current_row == ROW_NONE,
            r.current_tempo == module.initial_tempo,
            r.current_speed == module.initial_speed,
            r.tick_counter == 0,
            r.ticks_passed == 0,
            r.tick_slab == tick_length(samplerate, module.initial_tempo),
            !r.ended,
            !r.paused,
            r.pending is None,
            r.channels@.len() == module_width(module.patterns@, module.patterns@.len() as int),
            forall|i: int|
                0 <= i < r.channels@.len() ==> (#[trigger] r.channels@[i]) == Channel::at_rest(module),
    {
        let mut width: usize = 0;
        let mut p: usize = 0;
        while p < module.patterns.len()
            invariant
                p <= module.patterns@.len(),
                width == module_width(module.patterns@, p as int),
            decreases module.patterns@.len() - p,
        {
            let here = pattern_width(&module.patterns[p]);
            if here > width {
                width = here;
            }
            p += 1;
        }
        let mut channels: Vec<Channel<'a>> = Vec::new();
        let mut i: usize = 0;
        while i < width
            invariant
                i <= width,
                channels@.len() == i,
                forall|j: int|
                    0 <= j < i ==> (#[trigger] channels@[j]).wf() && channels@[j] == Channel::at_rest(
                        module,
                    ),
            decreases width - i,
        {
            channels.push(Channel::new(module));
            i += 1;
        }
        Player {
            module,
            samplerate,
            interpolation: Interpolation::Linear,
            current_position: 0,
            current_pattern: if module.playlist.len() > 0 {
                module.playlist[0]
            } else {
                ORDER_END
            },
            current_row: ROW_NONE,
            current_tempo: module.initial_tempo,
            current_speed: module.initial_speed,
            tick_counter: 0,
            ticks_passed: 0,
            tick_slab: tick_length_of(samplerate, module.initial_tempo),
            channels,
            ended: false,
            paused: false,
            pending: None,
        }
    }

    /// Output frames to a tick at the current tempo.
    pub fn compute_tick_slab(&self) -> (r: u32)
        ensures
            r == tick_length(self.samplerate, self.current_tempo),
            r >= 1,
    {
        tick_length_of(self.samplerate, self.current_tempo)
    }

    /// Changes the tempo, and with it the length of a tick.
    pub fn set_tempo(&mut self, tempo: u8)
        requires
            old(self)@.wf(),
        ensures
            final(self)@.wf(),
            final(self)@ == old(self)@.with_tempo(tempo),
    {
        self.current_tempo = tempo;
        self.tick_slab = self.compute_tick_slab();
        if self.tick_counter >= self.tick_slab {
            self.tick_counter = self.tick_slab - 1;
        }
    }

    /// Whether the sequencer stands on a row that exists.
    fn on_row(&self) -> (r: bool)
        ensures
            r == self@.on_row(),
    {
        (self.current_pattern as usize) < self.module.patterns.len() && (self.current_row as usize)
            < self.module.patterns[self.current_pattern as usize].len()
    }

    /// Tests the view's `wf`.
    pub fn is_consistent(&self) -> (r: bool)
        ensures
            r == self@.wf(),
    {
        if self.samplerate == 0 || self.tick_slab != self.compute_tick_slab() || self.tick_counter
            >= self.tick_slab || self.ticks_passed >= 255 {
            return false;
        }
        if !(self.ended || self.current_row == ROW_NONE || self.on_row()) {
            return false;
        }
        let mut i: usize = 0;
        while i < self.channels.len()
            invariant
                i <= self.channels@.len(),
                forall|j: int| 0 <= j < i ==> (#[trigger] self.channels@[j]).wf(),
            decreases self.channels@.len() - i,
        {
            if !self.channels[i].is_consistent() {
                assert(!self@.channels[i as int].wf());
                return false;
            }
            i += 1;
        }
        true
    }

    /// Moves the sequencer to `cursor`.
    fn land(&mut self, cursor: Cursor)
        ensures
            final(self)@ == old(self)@.landed(cursor),
    {
        match cursor {
            Cursor::At { position, pattern, row } => {
                self.current_position = position;
                self.current_pattern = pattern;
                self.current_row = row;
            },
            Cursor::End => { self.ended = true; },
        }
    }

    /// Moves the sequencer on by a row.
    pub fn advance_row(&mut self)
        requires
            old(self)@.wf(),
        ensures
            final(self)@.wf(),
            final(self)@ == old(self)@.after_advance_row(),
            old(self)@.owns_channels() ==> final(self)@.owns_channels(),
    {
        if self.ended {
            return ;
        }
        let module: &'a Module = self.module;
        if self.current_row == ROW_NONE || !self.on_row() {
            self.ticks_passed = 0;
            let cursor = settle_cursor(module, self.current_position as usize, 0);
            self.land(cursor);
            return ;
        }
        let row = &module.patterns[self.current_pattern as usize][self.current_row as usize];
        let ghost start = RowControl {
            speed: self.current_speed,
            tempo: self.current_tempo,
            jump: None,
            brk: None,
        };
        let mut control = RowControl {
            speed: self.current_speed,
            tempo: self.current_tempo,
            jump: None,
            brk: None,
        };
        let mut i: usize = 0;
        while i < row.len()
            invariant
                i <= row@.len(),
                control == scanned(row@, i as int, start),
            decreases row@.len() - i,
        {
            match row[i].effect {
                Effect::SetSpeed(v) => { control.speed = v; },
                Effect::SetTempo(v) => { control.tempo = v; },
                Effect::PosJump(v) => { control.jump = Some(v); },
                Effect::PatBreak(v) => { control.brk = Some(v); },
                _ => {},
            }
            i += 1;
        }
        let (position, next_row): (usize, usize) = match control.jump {
            Some(p) => (p as usize, 0),
            None => (self.current_position as usize, self.current_row as usize + 1),
        };
        let (position, next_row): (usize, usize) = match control.brk {
            Some(r) => (position + 1, r as usize),
            None => (position, next_row),
        };
        self.ticks_passed = 0;
        self.current_speed = control.speed;
        self.set_tempo(control.tempo);
        let cursor = settle_cursor(module, position, next_row);
        self.land(cursor);
    }

    /// Plays the onset of the row that the sequencer stands on.
    pub fn play_row(&mut self)
        requires
            old(self)@.wf(),
        ensures
            final(self)@.wf(),
            final(self)@ == old(self)@.after_play_row(),
            old(self)@.owns_channels() ==> final(self)@.owns_channels(),
    {
        if self.ended || self.current_row == ROW_NONE || !self.on_row() {
            return ;
        }
        let module: &'a Module = self.module;
        let row = &module.patterns[self.current_pattern as usize][self.current_row as usize];
        let ghost before = self.channels@;
        let mut i: usize = 0;
        while i < row.len() && i < self.channels.len()
            invariant
                self.channels@.len() == before.len(),
                i <= row@.len(),
                i <= before.len(),
                self@ == (PlayerState { channels: self.channels@, ..old(self)@ }),
                forall|j: int| 0 <= j < before.len() ==> (#[trigger] self.channels@[j]).wf(),
                forall|j: int| 0 <= j < before.len() ==> (#[trigger] before[j]).wf(),
                forall|j: int| 0 <= j < i ==> self.channels@[j] == before[j].after_row(row@[j]),
                forall|j: int| i <= j < before.len() ==> self.channels@[j] == before[j],
            decreases row@.len() - i,
        {
            self.channels[i].play_cell(&row[i]);
            i += 1;
        }
        assert(self.channels@ =~= channels_changed(
            before,
            row@,
            |c: Channel<'a>, col: Column| c.after_row(col),
        ));
    }

    /// Lets the effects of the row that the sequencer stands on act for one
    /// tick.
    pub fn process_tick(&mut self)
        requires
            old(self)@.wf(),
        ensures
            final(self)@.wf(),
            final(self)@ == old(self)@.after_process_tick(),
            old(self)@.owns_channels() ==> final(self)@.owns_channels(),
    {
        if self.ended || self.current_row == ROW_NONE || !self.on_row() {
            return ;
        }
        let module: &'a Module = self.module;
        let linear = module.linear_freq_slides;
        let row = &module.patterns[self.current_pattern as usize][self.current_row as usize];
        let ghost before = self.channels@;
        let mut i: usize = 0;
        while i < row.len() && i < self.channels.len()
            invariant
                self.channels@.len() == before.len(),
                i <= row@.len(),
                i <= before.len(),
                linear == module.linear_freq_slides,
                self@ == (PlayerState { channels: self.channels@, ..old(self)@ }),
                forall|j: int| 0 <= j < before.len() ==> (#[trigger] self.channels@[j]).wf(),
                forall|j: int| 0 <= j < before.len() ==> (#[trigger] before[j]).wf(),
                forall|j: int|
                    0 <= j < i ==> self.channels@[j] == before[j].after_tick(row@[j], linear),
                forall|j: int| i <= j < before.len() ==> self.channels@[j] == before[j],
            decreases row@.len() - i,
        {
            self.channels[i].tick_cell(&row[i], linear);
            i += 1;
        }
        assert(self.channels@ =~= channels_changed(
            before,
            row@,
            |c: Channel<'a>, col: Column| c.after_tick(col, linear),
        ));
    }

    /// Lets `message` take effect.
    fn apply_message(&mut self, message: Message)
        requires
            old(self)@.wf(),
        ensures
            final(self)@.wf(),
            final(self)@ == old(self)@.with_message(message),
    {
        match message {
            Message::Stop => { self.ended = true; },
            Message::Pause => { self.paused = true; },
            Message::Resume => { self.paused = false; },
        }
        self.pending = None;
    }

    /// Hands a message to the player. It takes effect between two ticks,
    /// never inside one: at once where the player stands on a tick
    /// boundary, else at the next.
    pub fn handle_message(&mut self, message: Message)
        requires
            old(self)@.wf(),
        ensures
            final(self)@.wf(),
            final(self)@ == old(self)@.after_message(message),
    {
        if self.tick_counter == 0 {
            self.apply_message(message);
        } else {
            self.pending = Some(message);
        }
    }

    /// Does what is due at a tick boundary.
    pub fn tick(&mut self)
        requires
            old(self)@.wf(),
        ensures
            final(self)@.wf(),
            final(self)@ == old(self)@.after_tick(),
            old(self)@.owns_channels() ==> final(self)@.owns_channels(),
    {
        if self.ticks_passed + 1 >= self.current_speed {
            self.advance_row();
            self.play_row();
        } else {
            self.ticks_passed += 1;
        }
        self.process_tick();
    }
}

/// Frames as numbers.
pub open spec fn as_ints(frames: Seq<i32>) -> Seq<int> {
    Seq::new(frames.len(), |i: int| frames[i] as int)
}

impl<'a> Player<'a> {
    /// Lets every channel play `take` frames, and gives what they add up
    /// to.
    fn mix_chunk(&mut self, take: usize) -> (slab: Vec<i32>)
        requires
            old(self)@.wf(),
            take <= SEGMENT_LIMIT,
        ensures
            slab@.len() == take,
            as_ints(slab@) == mixed(
                old(self)@.channels,
                old(self)@.channels.len() as int,
                take as int,
                old(self).samplerate,
                old(self).interpolation,
            ),
            final(self)@ == (PlayerState {
                channels: old(self)@.channels_after(take as int),
                ..old(self)@
            }),
            final(self)@.wf(),
    {
        let samplerate = self.samplerate;
        let interpolation = self.interpolation;
        let ghost before = self.channels@;
        let mut slab: Vec<i32> = Vec::new();
        let mut k: usize = 0;
        while k < take
            invariant
                k <= take,
                slab@.len() == k,
                forall|j: int| 0 <= j < k ==> slab@[j] == 0,
            decreases take - k,
        {
            slab.push(0);
            k += 1;
        }
        assert(as_ints(slab@) =~= silence(take as int));
        let mut c: usize = 0;
        while c < self.channels.len()
            invariant
                c <= before.len(),
                take <= SEGMENT_LIMIT,
                samplerate > 0,
                slab@.len() == take,
                self.channels@.len() == before.len(),
                self@ == (PlayerState { channels: self.channels@, ..old(self)@ }),
                as_ints(slab@) == mixed(before, c as int, take as int, samplerate, interpolation),
                forall|j: int| 0 <= j < before.len() ==> (#[trigger] before[j]).wf(),
                forall|j: int| 0 <= j < before.len() ==> (#[trigger] self.channels@[j]).wf(),
                forall|j: int|
                    0 <= j < c ==> self.channels@[j] == before[j].rendered(
                        take as int,
                        samplerate,
                        interpolation,
                    ).1,
                forall|j: int| c <= j < before.len() ==> self.channels@[j] == before[j],
            decreases before.len() - c,
        {
            let ghost below = as_ints(slab@);
            self.channels[c].add_to_slab(slab.as_mut_slice(), samplerate, interpolation);
            proof {
                let voice = before[c as int].rendered(take as int, samplerate, interpolation);
                assert(as_ints(slab@) =~= mixed(
                    before,
                    c + 1,
                    take as int,
                    samplerate,
                    interpolation,
                )) by {
                    assert forall|i: int| 0 <= i < take implies as_ints(slab@)[i] == frames_added(
                        below[i],
                        voice.0[i],
                    ) by {}
                }
            }
            c += 1;
        }
        assert(self.channels@ =~= old(self)@.channels_after(take as int));
        slab
    }

    /// Plays the next `take` frames, which do not reach past the end of the
    /// tick, and gives them.
    fn play_chunk(&mut self, take: usize) -> (slab: Vec<i32>)
        requires
            old(self)@.wf(),
            1 <= take <= old(self).tick_slab - old(self).tick_counter,
        ensures
            final(self)@.wf(),
            slab@.len() == take,
            as_ints(slab@) == old(self)@.chunk_frames(take as int),
            final(self)@ == old(self)@.after_chunk(take as int),
    {
        let slab = self.mix_chunk(take);
        self.tick_counter = self.tick_counter + take as u32;
        if self.tick_counter == self.tick_slab {
            self.tick_counter = 0;
            self.tick();
            match self.pending {
                Some(message) => { self.apply_message(message); },
                None => {},
            }
        }
        slab
    }

    /// Fills `buf` with the next frames of output, and says whether the
    /// song still goes on.
    pub fn process_to_buffer(&mut self, buf: &mut [i32]) -> (playing: bool)
        requires
            old(self)@.wf(),
        ensures
            final(self)@.wf(),
            final(self)@ == old(self)@.render(old(buf)@.len() as int).1,
            as_ints(final(buf)@) == old(self)@.render(old(buf)@.len() as int).0,
            old(self)@.owns_channels() ==> final(self)@.owns_channels(),
            final(self).module == old(self).module,
            playing == !final(self).ended,
    {
        let n = buf.len();
        proof {
            if self@.owns_channels() {
                lemma_render_keeps_channels(self@, n as int);
            }
            lemma_render_keeps_module(self@, n as int);
        }
        let ghost whole = self@.render(n as int);
        let ghost done: Seq<int> = Seq::empty();
        let mut z: usize = 0;
        while z < n
            invariant
                z <= n,
                buf@.len() == n,
                forall|j: int| 0 <= j < z ==> buf@[j] == 0,
            decreases n - z,
        {
            buf[z] = 0;
            z += 1;
        }
        let mut pos: usize = 0;
        assert(done + whole.0 =~= whole.0);
        while pos < n && !self.ended && !self.paused
            invariant
                pos <= n,
                buf@.len() == n,
                self@.wf(),
                done.len() == pos,
                whole.1 == self@.render(n - pos).1,
                whole.0 == done + self@.render(n - pos).0,
                forall|j: int| 0 <= j < pos ==> buf@[j] as int == done[j],
                forall|j: int| pos <= j < n ==> buf@[j] == 0,
            decreases n - pos,
        {
            let ghost before = self@;
            let room = (self.tick_slab - self.tick_counter) as usize;
            let take = if room < n - pos {
                room
            } else {
                n - pos
            };
            let slab = self.play_chunk(take);
            let mut i: usize = 0;
            while i < take
                invariant
                    i <= take,
                    pos + take <= n,
                    buf@.len() == n,
                    slab@.len() == take,
                    forall|j: int| 0 <= j < pos ==> buf@[j] as int == done[j],
                    forall|j: int| pos <= j < pos + i ==> buf@[j] == slab@[j - pos],
                    forall|j: int| pos + i <= j < n ==> buf@[j] == 0,
                decreases take - i,
            {
                buf[pos + i] = slab[i];
                i += 1;
            }
            proof {
                let frames = as_ints(slab@);
                let rest = self@.render(n - pos - take);
                assert(before.chunk(n - pos) == take);
                assert(before.render(n - pos) == (frames + rest.0, rest.1));
                assert(done + (frames + rest.0) =~= (done + frames) + rest.0);
                done = done + frames;
            }
            pos += take;
        }
        proof {
            let rest = self@.render(n - pos);
            assert(rest.1 == self@);
            assert(as_ints(buf@) =~= whole.0) by {
                assert forall|j: int| 0 <= j < n implies as_ints(buf@)[j] == whole.0[j] by {
                    if j >= pos {
                        assert(whole.0[j] == rest.0[j - pos]);
                    }
                }
            }
        }
        !self.ended
    }
}

// ---------------------------------------------------------------------------
// Laws
// ---------------------------------------------------------------------------

/// Players in the same state produce the same output and end in the same
/// state.
pub proof fn lemma_render_deterministic<'a>(a: PlayerState<'a>, b: PlayerState<'a>, n: int)
    requires
        a == b,
    ensures
        a.render(n) == b.render(n),
{
}

/// Whether no channel plays.
pub open spec fn all_silent<'a>(channels: Seq<Channel<'a>>) -> bool {
    forall|i: int| 0 <= i < channels.len() ==> !(#[trigger] channels[i]).playing
}

impl<'a> PlayerState<'a> {
    /// Whether output can be cut after `first` frames without a change to
    /// what is heard: the cut falls on a tick boundary, or inside a tick
    /// at whose start no channel plays, or where the player is at rest.
    pub open spec fn clean_cut(self, first: int) -> bool
        decreases first,
    {
        if first <= 0 || self.ended || self.paused || self.tick_counter >= self.tick_slab {
            true
        } else {
            let room = self.tick_slab - self.tick_counter;
            if first >= room {
                self.after_chunk(room).clean_cut(first - room)
            } else {
                all_silent(self.channels)
            }
        }
    }
}

/// A cut on a tick boundary is a clean cut.
pub proof fn lemma_boundary_cut_is_clean<'a>(state: PlayerState<'a>, first: int)
    requires
        first <= 0 || state.render(first).1.tick_counter == 0,
    ensures
        state.clean_cut(first),
    decreases first,
{
    if first > 0 && !state.ended && !state.paused && state.tick_counter < state.tick_slab {
        let room = state.tick_slab - state.tick_counter;
        if first >= room {
            assert(state.chunk(first) == room);
            lemma_boundary_cut_is_clean(state.after_chunk(room), first - room);
        } else {
            assert(state.chunk(first) == first);
            assert(state.render(first).1 == state.after_chunk(first).render(0).1);
        }
    }
}

/// While no channel plays, the channels add up to silence and stay as they
/// are.
proof fn lemma_silent_mix<'a>(
    channels: Seq<Channel<'a>>,
    upto: int,
    take: int,
    samplerate: u32,
    interpolation: Interpolation,
)
    requires
        all_silent(channels),
        0 <= upto <= channels.len(),
        0 < take,
    ensures
        mixed(channels, upto, take, samplerate, interpolation) == silence(take),
        forall|i: int|
            0 <= i < channels.len() ==> (#[trigger] channels[i]).rendered(
                take,
                samplerate,
                interpolation,
            ).1 == channels[i],
    decreases upto,
{
    if upto > 0 {
        lemma_silent_mix(channels, upto - 1, take, samplerate, interpolation);
        let voice = channels[upto - 1].rendered(take, samplerate, interpolation).0;
        assert(!channels[upto - 1].playing);
        assert(mixed(channels, upto, take, samplerate, interpolation) =~= silence(take));
    }
    assert forall|i: int| 0 <= i < channels.len() implies (#[trigger] channels[i]).rendered(
        take,
        samplerate,
        interpolation,
    ).1 == channels[i] by {
        assert(!channels[i].playing);
    }
}

/// While no channel plays, a stretch of a tick is silence, and the player
/// moves on with its channels as they are.
proof fn lemma_silent_chunk<'a>(state: PlayerState<'a>, take: int)
    requires
        all_silent(state.channels),
        0 < take <= state.tick_slab - state.tick_counter,
    ensures
        state.chunk_frames(take) == silence(take),
        state.channels_after(take) == state.channels,
        state.tick_counter + take < state.tick_slab ==> state.after_chunk(take) == (PlayerState {
            tick_counter: (state.tick_counter + take) as u32,
            ..state
        }),
        state.tick_counter + take == state.tick_slab ==> state.after_chunk(take) == (PlayerState {
            tick_counter: 0,
            ..state
        }).after_tick().after_pending(),
{
    lemma_silent_mix(
        state.channels,
        state.channels.len() as int,
        take,
        state.samplerate,
        state.interpolation,
    );
    assert(state.channels_after(take) =~= state.channels);
}

/// A cut inside a tick in which no channel plays changes nothing.
proof fn lemma_silent_cut<'a>(state: PlayerState<'a>, first: int, second: int)
    requires
        !state.ended,
        !state.paused,
        0 < first < state.tick_slab - state.tick_counter,
        0 <= second,
        all_silent(state.channels),
    ensures
        state.render(first + second).0 == state.render(first).0 + state.render(first).1.render(
            second,
        ).0,
        state.render(first + second).1 == state.render(first).1.render(second).1,
{
    let cut = PlayerState { tick_counter: (state.tick_counter + first) as u32, ..state };
    lemma_silent_chunk(state, first);
    assert(state.chunk(first) == first);
    assert(state.after_chunk(first) == cut);
    assert(cut.render(0) == (Seq::<int>::empty(), cut));
    assert(state.render(first).1 == cut);
    assert(state.render(first).0 == silence(first) + Seq::<int>::empty());
    assert(silence(first) + Seq::<int>::empty() =~= silence(first));
    if second == 0 {
        assert(cut.render(0).0 =~= Seq::<int>::empty());
        assert(silence(first) + Seq::<int>::empty() =~= silence(first));
    } else {
        let whole = state.chunk(first + second);
        let more = whole - first;
        assert(0 < more <= cut.tick_slab - cut.tick_counter);
        lemma_silent_chunk(state, whole);
        lemma_silent_chunk(cut, more);
        assert(cut.chunk(second) == more);
        assert(cut.after_chunk(more) == state.after_chunk(whole));
        let rest = state.after_chunk(whole).render(first + second - whole);
        assert(state.render(first + second) == (silence(whole) + rest.0, rest.1));
        assert(cut.render(second) == (silence(more) + rest.0, rest.1));
        assert(silence(whole) + rest.0 =~= silence(first) + (silence(more) + rest.0));
    }
}

/// Output made in one go equals output made in two, provided that the cut
/// is clean: `first + second` frames are the first `first` frames followed
/// by the next `second`, and the player ends in the same state.
pub proof fn lemma_render_split<'a>(state: PlayerState<'a>, first: int, second: int)
    requires
        0 <= first,
        0 <= second,
        state.clean_cut(first),
    ensures
        state.render(first + second).0 == state.render(first).0 + state.render(first).1.render(
            second,
        ).0,
        state.render(first + second).1 == state.render(first).1.render(second).1,
    decreases first,
{
    if first == 0 {
        assert(Seq::<int>::empty() + state.render(second).0 =~= state.render(second).0);
    } else if state.ended || state.paused || state.tick_counter >= state.tick_slab {
        if second > 0 {
            assert(silence(first + second) =~= silence(first) + silence(second));
        } else {
            assert(silence(first) + Seq::<int>::empty() =~= silence(first));
        }
    } else if first >= state.tick_slab - state.tick_counter {
        let room = state.tick_slab - state.tick_counter;
        let next = state.after_chunk(room);
        assert(next.clean_cut(first - room));
        lemma_render_split(next, first - room, second);
        lemma_render_after_whole_chunk(state, first, second);
    } else {
        assert(all_silent(state.channels));
        lemma_silent_cut(state, first, second);
    }
}

/// Where the first stretch reaches the end of the tick, a cut after it
/// changes nothing if it changes nothing for what follows the tick.
proof fn lemma_render_after_whole_chunk<'a>(state: PlayerState<'a>, first: int, second: int)
    requires
        !state.ended,
        !state.paused,
        state.tick_counter < state.tick_slab,
        first >= state.tick_slab - state.tick_counter,
        0 <= second,
        ({
            let room = state.tick_slab - state.tick_counter;
            let next = state.after_chunk(room);
            &&& next.render(first - room + second).0 == next.render(first - room).0
                + next.render(first - room).1.render(second).0
            &&& next.render(first - room + second).1 == next.render(first - room).1.render(
                second,
            ).1
        }),
    ensures
        state.render(first + second).0 == state.render(first).0 + state.render(first).1.render(
            second,
        ).0,
        state.render(first + second).1 == state.render(first).1.render(second).1,
{
    let room = state.tick_slab - state.tick_counter;
    let frames = state.chunk_frames(room);
    let next = state.after_chunk(room);
    assert(state.chunk(first) == room);
    assert(state.chunk(first + second) == room);
    assert(state.render(first) == (frames + next.render(first - room).0, next.render(
        first - room,
    ).1));
    assert(state.render(first + second) == (
        frames + next.render(first - room + second).0,
        next.render(first - room + second).1,
    ));
    assert(frames + (next.render(first - room).0 + next.render(first - room).1.render(second).0)
        =~= (frames + next.render(first - room).0) + next.render(first - room).1.render(second).0);
}

/// Where the sequencer settles, there is a row.
pub proof fn lemma_settled_cursor_on_row(module: &Module, position: int, row: int)
    ensures
        settled_cursor(module, position, row) matches Cursor::At { position: p, pattern, row: w }
            ==> {
            &&& pattern < module.patterns@.len()
            &&& w < module.patterns@[pattern as int]@.len()
        },
    decreases 256 - position,
{
    if 0 <= position < 256 && position < module.playlist@.len() {
        let pattern = module.playlist@[position];
        if pattern != ORDER_END && (pattern == ORDER_SKIP || pattern >= module.patterns@.len()
            || row < 0 || row >= module.patterns@[pattern as int]@.len() || row >= ROW_NONE) {
            lemma_settled_cursor_on_row(module, position + 1, 0);
        }
    }
}

/// A well-formed player stays well formed over any tick boundary.
pub proof fn lemma_player_tick_keeps_wf<'a>(state: PlayerState<'a>)
    requires
        state.wf(),
        state.tick_counter == 0,
    ensures
        state.after_tick().wf(),
        state.after_tick().after_pending().wf(),
{
    let moved = if state.ticks_passed + 1 >= state.current_speed {
        state.after_advance_row()
    } else {
        PlayerState { ticks_passed: (state.ticks_passed + 1) as u8, ..state }
    };
    if state.ticks_passed + 1 >= state.current_speed && !state.ended {
        if state.current_row == ROW_NONE || !state.on_row() {
            lemma_settled_cursor_on_row(state.module, state.current_position as int, 0);
        } else {
            let row = state.row();
            let control = scanned(
                row,
                row.len() as int,
                RowControl {
                    speed: state.current_speed,
                    tempo: state.current_tempo,
                    jump: None,
                    brk: None,
                },
            );
            let (position, next_row) = match control.jump {
                Some(p) => (p as int, 0int),
                None => (state.current_position as int, state.current_row + 1),
            };
            let (position, next_row) = match control.brk {
                Some(r) => (position + 1, r as int),
                None => (position, next_row),
            };
            lemma_settled_cursor_on_row(state.module, position, next_row);
        }
    }
    assert(moved.wf());
    let played = if state.ticks_passed + 1 >= state.current_speed {
        moved.after_play_row()
    } else {
        moved
    };
    assert(played.wf()) by {
        if played != moved {
            assert forall|i: int| 0 <= i < played.channels.len() implies
                (#[trigger] played.channels[i]).wf() by {
                if i < moved.row().len() {
                    lemma_row_keeps_wf(moved.channels[i], moved.row()[i]);
                }
            }
        }
    }
    let ticked = played.after_process_tick();
    assert(ticked.wf()) by {
        if ticked != played {
            assert forall|i: int| 0 <= i < ticked.channels.len() implies
                (#[trigger] ticked.channels[i]).wf() by {
                if i < played.row().len() {
                    lemma_tick_keeps_wf(
                        played.channels[i],
                        played.row()[i],
                        played.module.linear_freq_slides,
                    );
                }
            }
        }
    }
}

/// A well-formed player stays well formed over any stretch of output: at
/// every frame, and so at every tick boundary, the volume of each channel
/// lies between 0 and 64 and its position inside the audio of its sample.
pub proof fn lemma_render_keeps_wf<'a>(state: PlayerState<'a>, n: int)
    requires
        state.wf(),
    ensures
        state.render(n).1.wf(),
    decreases n,
{
    if n > 0 && !state.ended && !state.paused && state.tick_counter < state.tick_slab {
        let take = state.chunk(n);
        let played = PlayerState {
            channels: state.channels_after(take),
            tick_counter: (state.tick_counter + take) as u32,
            ..state
        };
        assert forall|i: int| 0 <= i < played.channels.len() implies
            (#[trigger] played.channels[i]).wf() by {
            lemma_rendered_keeps_wf(
                state.channels[i],
                take,
                state.samplerate,
                state.interpolation,
            );
        }
        if played.tick_counter == played.tick_slab {
            lemma_player_tick_keeps_wf(PlayerState { tick_counter: 0, ..played });
        }
        lemma_render_keeps_wf(state.after_chunk(take), n - take);
    }
}

/// Whether no cell of the module sets the tempo.
pub open spec fn keeps_tempo(module: &Module) -> bool {
    forall|p: int, r: int, c: int|
        0 <= p < module.patterns@.len() && 0 <= r < module.patterns@[p]@.len() && 0 <= c
            < module.patterns@[p]@[r]@.len() ==> !(
        #[trigger] module.patterns@[p]@[r]@[c].effect is SetTempo)
}

/// A row without a cell that sets the tempo leaves the tempo as it is.
proof fn lemma_scanned_keeps_tempo(row: Seq<Column>, n: int, start: RowControl)
    requires
        0 <= n <= row.len(),
        forall|c: int| 0 <= c < row.len() ==> !(#[trigger] row[c].effect is SetTempo),
    ensures
        scanned(row, n, start).tempo == start.tempo,
    decreases n,
{
    if n > 0 {
        lemma_scanned_keeps_tempo(row, n - 1, start);
    }
}

/// In a module that never sets the tempo, a tick boundary changes neither
/// the length of a tick nor the frame counter.
proof fn lemma_tick_keeps_tempo<'a>(state: PlayerState<'a>)
    requires
        state.wf(),
        keeps_tempo(state.module),
    ensures
        state.after_tick().after_pending().tick_slab == state.tick_slab,
        state.after_tick().after_pending().tick_counter == state.tick_counter,
        state.after_tick().after_pending().module == state.module,
        state.after_tick().after_pending().samplerate == state.samplerate,
{
    if state.ticks_passed + 1 >= state.current_speed && !state.ended && state.current_row
        != ROW_NONE && state.on_row() {
        let row = state.row();
        let p = state.current_pattern as int;
        let r = state.current_row as int;
        assert forall|c: int| 0 <= c < row.len() implies !(#[trigger] row[c].effect is SetTempo) by {
            assert(row[c] == state.module.patterns@[p]@[r]@[c]);
        }
        lemma_scanned_keeps_tempo(
            row,
            row.len() as int,
            RowControl {
                speed: state.current_speed,
                tempo: state.current_tempo,
                jump: None,
                brk: None,
            },
        );
    }
}

/// The clock of ticks in a module that never sets the tempo: after `n`
/// frames that were all played, the frame counter stands at the remainder
/// of the frames since the last tick boundary by the length of a tick.
pub proof fn lemma_tick_arithmetic<'a>(state: PlayerState<'a>, n: int)
    requires
        state.wf(),
        0 <= n,
        keeps_tempo(state.module),
        !state.render(n).1.ended,
        !state.render(n).1.paused,
    ensures
        state.render(n).1.tick_slab == state.tick_slab,
        state.render(n).1.tick_counter == (state.tick_counter + n) % (state.tick_slab as int),
    decreases n,
{
    let slab = state.tick_slab as int;
    if n > 0 {
        let take = state.chunk(n);
        let next = state.after_chunk(take);
        let played = PlayerState {
            channels: state.channels_after(take),
            tick_counter: (state.tick_counter + take) as u32,
            ..state
        };
        assert(all_wf(played.channels)) by {
            assert forall|i: int| 0 <= i < played.channels.len() implies
                (#[trigger] played.channels[i]).wf() by {
                lemma_rendered_keeps_wf(
                    state.channels[i],
                    take,
                    state.samplerate,
                    state.interpolation,
                );
            }
        }
        if played.tick_counter == played.tick_slab {
            let at_boundary = PlayerState { tick_counter: 0, ..played };
            lemma_tick_keeps_tempo(at_boundary);
            lemma_player_tick_keeps_wf(at_boundary);
        }
        lemma_tick_arithmetic(next, n - take);
        if played.tick_counter == played.tick_slab {
            vstd::arithmetic::div_mod::lemma_mod_multiples_vanish(1, n - take, slab);
        }
    }
    vstd::arithmetic::div_mod::lemma_small_mod(
        ((state.tick_counter + n) % slab) as nat,
        slab as nat,
    );
    if state.tick_counter + n < slab {
        vstd::arithmetic::div_mod::lemma_small_mod((state.tick_counter + n) as nat, slab as nat);
    }
}

/// Once the song has ended nothing more is heard and nothing moves.
pub proof fn lemma_ended_is_silent<'a>(state: PlayerState<'a>, n: int)
    requires
        state.ended,
        n >= 0,
    ensures
        state.render(n).0 == silence(n),
        state.render(n).1 == state,
{
    if n == 0 {
        assert(silence(0) =~= Seq::<int>::empty());
    }
}

/// The song ends where its last row does: from the last row of a pattern
/// whose order is followed by the end-of-song marker, and which neither
/// jumps nor breaks, the next move ends the song.
pub proof fn lemma_last_row_ends_the_song<'a>(state: PlayerState<'a>)
    requires
        !state.ended,
        state.current_row != ROW_NONE,
        state.on_row(),
        state.current_row + 1 == state.module.patterns@[state.current_pattern as int]@.len(),
        state.current_position + 1 < state.module.playlist@.len(),
        state.module.playlist@[state.current_position as int] == state.current_pattern,
        state.module.playlist@[state.current_position + 1] == ORDER_END,
        forall|c: int|
            0 <= c < state.row().len() ==> !(#[trigger] state.row()[c].effect is PosJump)
                && !(state.row()[c].effect is PatBreak),
    ensures
        state.after_advance_row().ended,
{
    let row = state.row();
    let start = RowControl {
        speed: state.current_speed,
        tempo: state.current_tempo,
        jump: None,
        brk: None,
    };
    lemma_scanned_keeps_cursor(row, row.len() as int, start);
    let position = state.current_position as int;
    let next = state.current_row + 1;
    assert(settled_cursor(state.module, position, next) == settled_cursor(
        state.module,
        position + 1,
        0,
    ));
}

/// A row without a cell that jumps or breaks sends the sequencer nowhere.
proof fn lemma_scanned_keeps_cursor(row: Seq<Column>, n: int, start: RowControl)
    requires
        0 <= n <= row.len(),
        forall|c: int|
            0 <= c < row.len() ==> !(#[trigger] row[c].effect is PosJump) && !(row[c].effect
                is PatBreak),
    ensures
        scanned(row, n, start).jump == start.jump,
        scanned(row, n, start).brk == start.brk,
    decreases n,
{
    if n > 0 {
        lemma_scanned_keeps_cursor(row, n - 1, start);
    }
}

/// Output made in one go equals the same output made in two halves,
/// provided that the first half ends on a tick boundary.
pub proof fn lemma_render_halves<'a>(state: PlayerState<'a>, n: int)
    requires
        0 <= n,
        n == 0 || state.render(n).1.tick_counter == 0,
    ensures
        state.render(2 * n).0 == state.render(n).0 + state.render(n).1.render(n).0,
        state.render(2 * n).1 == state.render(n).1.render(n).1,
{
    lemma_boundary_cut_is_clean(state, n);
    lemma_render_split(state, n, n);
}

/// A player keeps its module over any stretch of output.
pub proof fn lemma_render_keeps_module<'a>(state: PlayerState<'a>, n: int)
    ensures
        state.render(n).1.module == state.module,
    decreases n,
{
    if n > 0 && !state.ended && !state.paused && state.tick_counter < state.tick_slab {
        let take = state.chunk(n);
        lemma_render_keeps_module(state.after_chunk(take), n - take);
    }
}

/// A player whose channels play its module keeps them so over any tick
/// boundary, and keeps its module.
pub proof fn lemma_tick_keeps_channels<'a>(state: PlayerState<'a>)
    requires
        state.owns_channels(),
    ensures
        state.after_tick().after_pending().owns_channels(),
        state.after_tick().after_pending().module == state.module,
        state.after_tick().after_pending().channels.len() == state.channels.len(),
{
    let moved = if state.ticks_passed + 1 >= state.current_speed {
        state.after_advance_row()
    } else {
        PlayerState { ticks_passed: (state.ticks_passed + 1) as u8, ..state }
    };
    assert(moved.channels == state.channels && moved.module == state.module);
    let played = if state.ticks_passed + 1 >= state.current_speed {
        moved.after_play_row()
    } else {
        moved
    };
    assert(played.owns_channels() && played.module == state.module && played.channels.len()
        == state.channels.len());
    let ticked = played.after_process_tick();
    assert(ticked.owns_channels() && ticked.module == state.module && ticked.channels.len()
        == state.channels.len());
}

/// A player whose channels play its module keeps them so over any stretch
/// of output, and keeps its module and the number of its channels. What a
/// row binds to a channel is therefore a sample of the player's module.
pub proof fn lemma_render_keeps_channels<'a>(state: PlayerState<'a>, n: int)
    requires
        state.owns_channels(),
    ensures
        state.render(n).1.owns_channels(),
        state.render(n).1.module == state.module,
        state.render(n).1.channels.len() == state.channels.len(),
    decreases n,
{
    if n > 0 && !state.ended && !state.paused && state.tick_counter < state.tick_slab {
        let take = state.chunk(n);
        let played = PlayerState {
            channels: state.channels_after(take),
            tick_counter: (state.tick_counter + take) as u32,
            ..state
        };
        assert forall|i: int| 0 <= i < played.channels.len() implies (
        #[trigger] played.channels[i]).module == played.module by {
            lemma_rendered_keeps_module(
                state.channels[i],
                take,
                state.samplerate,
                state.interpolation,
            );
        }
        if played.tick_counter == played.tick_slab {
            lemma_tick_keeps_channels(PlayerState { tick_counter: 0, ..played });
        }
        lemma_render_keeps_channels(state.after_chunk(take), n - take);
    }
}

impl<'a> PlayerState<'a> {
    /// The player `k` ticks on from a tick boundary. A player that has
    /// ended or is paused stays as it is.
    pub open spec fn ticked(self, k: int) -> PlayerState<'a>
        decreases k,
    {
        if k <= 0 || self.ended || self.paused || self.tick_counter != 0 {
            self
        } else {
            self.after_chunk(self.tick_slab as int).ticked(k - 1)
        }
    }

    /// The number of output frames that the next `k` ticks last, counted
    /// from a tick boundary: the sum of their lengths.
    pub open spec fn frames_of_ticks(self, k: int) -> int
        decreases k,
    {
        if k <= 0 || self.ended || self.paused || self.tick_counter != 0 {
            0
        } else {
            self.tick_slab + self.after_chunk(self.tick_slab as int).frames_of_ticks(k - 1)
        }
    }
}

/// Ticks last no negative number of frames.
proof fn lemma_frames_of_ticks_nonnegative<'a>(state: PlayerState<'a>, k: int)
    ensures
        state.frames_of_ticks(k) >= 0,
    decreases k,
{
    if !(k <= 0 || state.ended || state.paused || state.tick_counter != 0) {
        lemma_frames_of_ticks_nonnegative(state.after_chunk(state.tick_slab as int), k - 1);
    }
}

/// Frames and ticks keep step: from a tick boundary, after the frames that
/// `k` ticks last the player stands where `k` ticks put it.
pub proof fn lemma_frames_keep_step_with_ticks<'a>(state: PlayerState<'a>, k: int)
    requires
        state.wf(),
    ensures
        state.render(state.frames_of_ticks(k)).1 == state.ticked(k),
    decreases k,
{
    if !(k <= 0 || state.ended || state.paused || state.tick_counter != 0) {
        let slab = state.tick_slab as int;
        let next = state.after_chunk(slab);
        let rest = next.frames_of_ticks(k - 1);
        lemma_frames_of_ticks_nonnegative(next, k - 1);
        assert(state.chunk(slab + rest) == slab);
        assert(state.chunk(slab) == slab);
        assert(state.render(slab).1 == next.render(0).1);
        lemma_render_keeps_wf(state, slab);
        lemma_frames_keep_step_with_ticks(next, k - 1);
        assert(state.render(slab + rest).1 == next.render(rest).1);
    }
}

} // verus!
