use modplay::engine::channel::Channel;
use modplay::engine::message::Message;
use modplay::engine::module::{
    Column, Effect, LoopType, Module, Note, Pattern, PlaybackMode, Sample, VolEffect,
};
use modplay::engine::pitch::{freq_from_period, note_freq, period, FREQ_LIMIT, ONE};
use modplay::engine::player::{Interpolation, Player, ROW_NONE};
use modplay::engine::resample::{buf_linear, buf_sinc};
use modplay::engine::volume::VOLUME_MAX;

fn sample(audio: Vec<i16>, base_frequency: u32, loop_type: LoopType, start: u32, end: u32) -> Sample {
    Sample {
        base_frequency,
        loop_type,
        loop_start: start,
        loop_end: end,
        default_volume: 64,
        global_volume: 64,
        audio,
    }
}

fn module(samples: Vec<Sample>, patterns: Vec<Pattern>, playlist: Vec<u8>) -> Module {
    Module {
        name: String::from("test"),
        mode: PlaybackMode::ITSample,
        linear_freq_slides: true,
        fast_volume_slides: false,
        initial_tempo: 125,
        initial_speed: 3,
        initial_global_volume: 128,
        mixing_volume: 48,
        samples,
        patterns,
        playlist,
    }
}

fn empty_cell() -> Column {
    Column { note: Note::Empty, instrument: 0, vol: VolEffect::Empty, effect: Effect::Empty }
}

fn effect_cell(effect: Effect) -> Column {
    Column { effect, ..empty_cell() }
}

fn note_cell(key: u8, instrument: u8) -> Column {
    Column { note: Note::On(key), instrument, ..empty_cell() }
}

fn ramp(n: i16) -> Vec<i16> {
    (0..n).map(|i| i * 100).collect()
}

/// Runs the player for `ticks` whole ticks and gives what it put out.
fn run_ticks(player: &mut Player, ticks: usize) -> Vec<i32> {
    let mut out = Vec::new();
    for _ in 0..ticks {
        let mut buf = vec![7i32; player.tick_slab as usize];
        player.process_to_buffer(&mut buf);
        out.extend(buf);
    }
    out
}

#[test]
fn player_starts_before_the_first_row() {
    let m = module(
        vec![],
        vec![vec![vec![empty_cell(); 3]], vec![vec![empty_cell(); 5], vec![empty_cell(); 2]]],
        vec![1, 0, 255],
    );
    let p = Player::from_module(&m, 48000);
    assert_eq!(p.samplerate, 48000);
    assert_eq!(p.interpolation, Interpolation::Linear);
    assert_eq!(p.current_position, 0);
    assert_eq!(p.current_pattern, 1);
    assert_eq!(p.current_row, ROW_NONE);
    assert_eq!(p.current_tempo, 125);
    assert_eq!(p.current_speed, 3);
    assert_eq!(p.tick_counter, 0);
    assert_eq!(p.ticks_passed, 0);
    assert_eq!(p.tick_slab, 960);
    assert!(!p.ended);
    assert_eq!(p.channels.len(), 5);
    for c in &p.channels {
        assert!(!c.playing);
        assert_eq!(c.volume, VOLUME_MAX);
        assert_eq!(c.freq, 8363 * ONE);
        assert_eq!(c.position, 0);
    }
}

#[test]
fn player_of_empty_module() {
    let m = module(vec![], vec![], vec![]);
    let mut p = Player::from_module(&m, 48000);
    assert_eq!(p.current_pattern, 255);
    assert_eq!(p.channels.len(), 0);
    let out = run_ticks(&mut p, 3);
    assert!(p.ended);
    assert!(out.iter().all(|f| *f == 0));
}

#[test]
fn tick_length_follows_tempo() {
    let mut m = module(vec![], vec![], vec![255]);
    assert_eq!(Player::from_module(&m, 48000).compute_tick_slab(), 960);
    assert_eq!(Player::from_module(&m, 44100).compute_tick_slab(), 882);
    m.initial_tempo = 32;
    assert_eq!(Player::from_module(&m, 48000).compute_tick_slab(), 3750);
    m.initial_tempo = 255;
    assert_eq!(Player::from_module(&m, 48000).compute_tick_slab(), 470);
    assert_eq!(Player::from_module(&m, 101).compute_tick_slab(), 1);
    assert_eq!(Player::from_module(&m, 1).compute_tick_slab(), 1);
    m.initial_tempo = 0;
    assert_eq!(Player::from_module(&m, 48000).compute_tick_slab(), u32::MAX);
    m.initial_tempo = 1;
    assert_eq!(Player::from_module(&m, u32::MAX).compute_tick_slab(), u32::MAX);
}

#[test]
fn set_tempo_changes_tick_length() {
    let m = module(vec![], vec![], vec![255]);
    let mut p = Player::from_module(&m, 48000);
    p.set_tempo(250);
    assert_eq!(p.current_tempo, 250);
    assert_eq!(p.tick_slab, 480);
}

#[test]
fn empty_playlist_sentinel() {
    let m = module(
        vec![],
        vec![vec![vec![effect_cell(Effect::SetSpeed(6))], vec![empty_cell()]]],
        vec![0, 255],
    );
    let mut p = Player::from_module(&m, 48000);
    // Three ticks before the first row, three for it, six for the second.
    for tick in 1..=11 {
        let mut buf = vec![0i32; 960];
        assert!(p.process_to_buffer(&mut buf), "ended at tick {}", tick);
    }
    assert_eq!(p.current_row, 1);
    assert_eq!(p.current_speed, 6);
    let mut buf = vec![0i32; 960];
    assert!(!p.process_to_buffer(&mut buf));
    assert!(p.ended);
    // From then on there is silence, and nothing moves.
    let mut buf = vec![5i32; 100];
    assert!(!p.process_to_buffer(&mut buf));
    assert_eq!(buf, vec![0i32; 100]);
    assert_eq!(p.current_row, 1);
}

#[test]
fn ping_pong_loop() {
    let m = module(
        vec![sample(vec![0, 1000, 2000, 3000, 2000, 1000], 48000, LoopType::PingPong, 1, 4)],
        vec![],
        vec![255],
    );
    let mut c = Channel::new(&m);
    c.play_cell(&note_cell(60, 1));
    assert!(c.playing);
    assert_eq!(c.freq, 48000 * ONE);
    let mut slab = vec![0i32; 10];
    c.add_to_slab(&mut slab, 48000, Interpolation::Linear);
    let expected: Vec<i32> = [0, 1000, 2000, 3000, 3000, 2000, 1000, 1000, 2000, 3000]
        .iter()
        .map(|f| f * 32768)
        .collect();
    assert_eq!(slab, expected);
    // The nearest stored frames are the same ones, read backwards on the
    // way back.
    let mut nearest = Channel::new(&m);
    nearest.play_cell(&note_cell(60, 1));
    let mut slab_nearest = vec![0i32; 10];
    nearest.add_to_slab(&mut slab_nearest, 48000, Interpolation::Nearest);
    assert_eq!(slab_nearest, expected);
    assert!(c.playing);
    assert!(c.backwards);
    assert_eq!(c.position, 4 * ONE);
    // The output rises and falls.
    assert!(slab.windows(2).any(|w| w[0] < w[1]));
    assert!(slab.windows(2).any(|w| w[0] > w[1]));
}

#[test]
fn volume_slide_memory() {
    let m = module(
        vec![],
        vec![vec![
            vec![effect_cell(Effect::VolSlide(0x12))],
            vec![effect_cell(Effect::VolSlide(0x00))],
        ]],
        vec![0, 255],
    );
    let mut p = Player::from_module(&m, 48000);
    run_ticks(&mut p, 8);
    assert!(!p.ended);
    assert_eq!(p.current_row, 1);
    let mut alone = Channel::new(&m);
    for _ in 0..(3 + 3 - 2) {
        alone.vol_slide(0x12);
    }
    assert_eq!(p.channels[0].volume, alone.volume);
    assert_eq!(p.channels[0].volume_memory, 0x12);
}

#[test]
fn volume_slide_memory_carries_a_slide_that_counts() {
    let m = module(
        vec![],
        vec![vec![
            vec![effect_cell(Effect::VolSlide(0x02))],
            vec![effect_cell(Effect::VolSlide(0x00))],
        ]],
        vec![0, 255],
    );
    let mut p = Player::from_module(&m, 48000);
    run_ticks(&mut p, 5);
    // Row 0 has acted on three ticks.
    assert_eq!(p.current_row, 0);
    assert_eq!(p.channels[0].volume, (64 - 6) * ONE as u32);
    run_ticks(&mut p, 3);
    // Row 1 has acted on three more, with the argument of row 0.
    assert_eq!(p.current_row, 1);
    assert_eq!(p.channels[0].volume, (64 - 12) * ONE as u32);
    assert_eq!(p.channels[0].volume_memory, 0x02);
}

#[test]
fn volume_slides() {
    let m = module(vec![], vec![], vec![255]);
    let one = ONE as u32;
    let mut c = Channel::new(&m);
    c.volume = 32 * one;
    c.vol_slide(0x03);
    assert_eq!(c.volume, 29 * one);
    c.vol_slide(0x40);
    assert_eq!(c.volume, 33 * one);
    c.vol_slide(0xF2);
    assert_eq!(c.volume, 33 * one - one / 4);
    c.vol_slide(0x4F);
    assert_eq!(c.volume, 33 * one + one / 4);
    c.vol_slide(0x42);
    assert_eq!(c.volume, 33 * one + one / 4);
    assert_eq!(c.volume_memory, 0x42);
    c.vol_slide(0xF0);
    assert_eq!(c.volume, 48 * one + one / 4);
    c.vol_slide(0x0F);
    assert_eq!(c.volume, 33 * one + one / 4);
    c.vol_slide(0xFF);
    assert_eq!(c.volume, 33 * one + one / 4 - 15 * one / 8);
}

#[test]
fn volume_stays_in_range() {
    let m = module(vec![], vec![], vec![255]);
    let mut c = Channel::new(&m);
    for _ in 0..10 {
        c.vol_slide(0xF0);
        assert!(c.volume <= VOLUME_MAX);
    }
    assert_eq!(c.volume, VOLUME_MAX);
    for _ in 0..10 {
        c.vol_slide(0x0F);
    }
    assert_eq!(c.volume, 0);
    for value in 0..=255u8 {
        c.vol_slide(value);
        assert!(c.volume <= VOLUME_MAX);
        c.retrigger(value);
        assert!(c.volume <= VOLUME_MAX);
    }
}

#[test]
fn retrigger_volume_changes() {
    let m = module(vec![], vec![], vec![255]);
    let one = ONE as u32;
    let cases: [(u8, u32); 16] = [
        (0x0, 30 * one),
        (0x1, 29 * one),
        (0x2, 28 * one),
        (0x3, 26 * one),
        (0x4, 22 * one),
        (0x5, 14 * one),
        (0x6, 20 * one),
        (0x7, 15 * one),
        (0x8, 30 * one),
        (0x9, 31 * one),
        (0xA, 32 * one),
        (0xB, 34 * one),
        (0xC, 38 * one),
        (0xD, 46 * one),
        (0xE, 45 * one),
        (0xF, 60 * one),
    ];
    for (x, expected) in cases {
        let mut c = Channel::new(&m);
        c.volume = 30 * one;
        c.retrigger(x << 4 | 0xF);
        assert_eq!(c.volume, expected, "change {:X}", x);
    }
    let mut c = Channel::new(&m);
    c.volume = 40 * one;
    c.retrigger(0xF0);
    assert_eq!(c.volume, VOLUME_MAX);
    c.volume = 10 * one;
    c.retrigger(0x50);
    assert_eq!(c.volume, 0);
}

#[test]
fn retrigger_restarts_every_few_ticks() {
    let m = module(vec![sample(ramp(1000), 48000, LoopType::Off, 0, 0)], vec![], vec![255]);
    let mut c = Channel::new(&m);
    c.play_cell(&note_cell(60, 1));
    let mut restarts = Vec::new();
    for tick in 0..8 {
        c.position = 500 * ONE;
        c.retrigger(0x03);
        if c.position == 0 {
            restarts.push(tick);
        }
    }
    // The counter reaches the low digit of the argument on the fourth
    // tick, and from then on on every third.
    assert_eq!(restarts, vec![3, 6]);
    assert!(c.playing);
}

#[test]
fn note_frequencies() {
    assert_eq!(note_freq(8363, 60), 8363 * ONE);
    assert_eq!(note_freq(8363, 72), 2 * 8363 * ONE);
    assert_eq!(note_freq(8363, 48), 8363 * ONE / 2);
    assert_eq!(note_freq(8363, 0), 8363 * ONE / 32);
    assert_eq!(note_freq(48000, 84), 4 * 48000 * ONE);
    assert_eq!(note_freq(0, 60), 0);
    assert_eq!(note_freq(u32::MAX, 255), FREQ_LIMIT);
    for key in 0..=255u8 {
        let exact = 8363.0 * 2f64.powf((key as f64 - 60.0) / 12.0);
        let got = note_freq(8363, key) as f64 / ONE as f64;
        assert!((got / exact - 1.0).abs() < 1e-6, "key {}: {} against {}", key, got, exact);
    }
}

#[test]
fn periods() {
    assert_eq!(period(8363 * ONE), 424);
    assert_eq!(period(0), u32::MAX);
    assert_eq!(period(1), u32::MAX);
    assert_eq!(period(FREQ_LIMIT), 0);
    assert_eq!(freq_from_period(424), 3546816 * ONE / 424);
    assert_eq!(freq_from_period(0), FREQ_LIMIT);
    assert_eq!(freq_from_period(1), 3546816 * ONE);
}

#[test]
fn linear_pitch_slides() {
    let m = module(vec![], vec![], vec![255]);
    let start = 8363 * ONE;
    let mut c = Channel::new(&m);
    // Sixteen regular steps make 64 768ths: one semitone.
    c.porta_up(true, 0x10);
    assert_eq!(c.freq, note_freq(8363, 61));
    assert_eq!(c.porta_memory, 0x10);
    c.porta_down(true, 0);
    assert!((c.freq as i64 - start as i64).abs() <= 1);
    assert_eq!(c.porta_memory, 0x10);
    // A fine step is two 768ths, an extra-fine step one.
    let mut fine = Channel::new(&m);
    fine.porta_up(true, 0xF1);
    let mut extra = Channel::new(&m);
    extra.porta_up(true, 0xE1);
    extra.porta_up(true, 0xE1);
    assert!((fine.freq as i64 - extra.freq as i64).abs() <= 1);
    let ratio = fine.freq as f64 / start as f64;
    assert!((ratio - 2f64.powf(2.0 / 768.0)).abs() < 1e-6);
    let mut down = Channel::new(&m);
    down.porta_down(true, 0xEF);
    let ratio = down.freq as f64 / start as f64;
    assert!((ratio - 2f64.powf(-15.0 / 768.0)).abs() < 1e-6);
    let mut far = Channel::new(&m);
    far.porta_up(true, 0xDF);
    let ratio = far.freq as f64 / start as f64;
    assert!((ratio - 2f64.powf(4.0 * 223.0 / 768.0)).abs() < 1e-5);
}

#[test]
fn amiga_pitch_slides() {
    let m = module(vec![], vec![], vec![255]);
    let mut c = Channel::new(&m);
    c.porta_up(false, 0x10);
    assert_eq!(c.freq, 3546816 * ONE / (424 - 16));
    let mut c = Channel::new(&m);
    c.porta_down(false, 0x10);
    assert_eq!(c.freq, 3546816 * ONE / (424 + 16));
    let mut c = Channel::new(&m);
    c.porta_up(false, 0xE1);
    assert_eq!(c.freq, 8363 * ONE + 8363 * ONE * 8 * 0xE1 / 8363);
    let mut c = Channel::new(&m);
    c.porta_down(false, 0xF1);
    assert_eq!(c.freq, 8363 * ONE - 8363 * ONE * 16 * 0xF1 / 8363);
    // A slide up past period zero ends at the limit.
    let mut c = Channel::new(&m);
    c.freq = 3546816 * ONE / 10;
    c.porta_up(false, 0x20);
    assert_eq!(c.freq, FREQ_LIMIT);
}

#[test]
fn tone_portamento_stops_at_the_target() {
    let m = module(vec![sample(ramp(100), 8363, LoopType::Off, 0, 0)], vec![], vec![255]);
    let mut c = Channel::new(&m);
    c.tone_portamento(Note::On(62), true, 0x08);
    assert_eq!(c.last_note, 62);
    assert_eq!(c.porta_memory, 0x08);
    let after_one = c.freq as f64 / (8363 * ONE) as f64;
    assert!((after_one - 2f64.powf(32.0 / 768.0)).abs() < 1e-6);
    for _ in 0..3 {
        c.tone_portamento(Note::Empty, true, 0);
    }
    // Four steps of 32 768ths make the two semitones, but for rounding.
    assert!(c.freq <= note_freq(8363, 62));
    assert!(note_freq(8363, 62) - c.freq < 8);
    c.tone_portamento(Note::Empty, true, 0);
    assert_eq!(c.freq, note_freq(8363, 62));
    c.tone_portamento(Note::Empty, true, 0);
    assert_eq!(c.freq, note_freq(8363, 62));
    c.tone_portamento(Note::On(60), true, 0xFF);
    assert_eq!(c.freq, note_freq(8363, 60));
    // In Amiga mode the period moves by the argument.
    c.tone_portamento(Note::On(72), false, 0x10);
    assert_eq!(c.freq, 3546816 * ONE / (424 - 16));
    c.tone_portamento(Note::On(48), false, 0x20);
    assert_eq!(c.freq, 3546816 * ONE / (3546816 / (3546816 / (424 - 16)) + 32));
}

#[test]
fn tone_portamento_never_moves_away_from_its_target() {
    let m = module(vec![sample(ramp(100), 8363, LoopType::Off, 0, 0)], vec![], vec![255]);
    // A step of nothing, with nothing remembered, moves nothing.
    for linear in [false, true] {
        let mut c = Channel::new(&m);
        c.tone_portamento(Note::On(48), linear, 0);
        assert_eq!(c.freq, 8363 * ONE);
        c.tone_portamento(Note::On(72), linear, 0);
        assert_eq!(c.freq, 8363 * ONE);
    }
    // Whatever the step, the frequency ends between where it was and the
    // target.
    for linear in [false, true] {
        for key in [0u8, 30, 59, 60, 61, 90, 200] {
            for value in [1u8, 2, 0x10, 0x80, 0xFF] {
                for start in [1u64, 100 * ONE, 8363 * ONE, 8363 * ONE + 12345, FREQ_LIMIT] {
                    let mut c = Channel::new(&m);
                    c.freq = start;
                    let target = note_freq(8363, key);
                    c.tone_portamento(Note::On(key), linear, value);
                    let (low, high) = (start.min(target), start.max(target));
                    assert!(low <= c.freq && c.freq <= high, "{} {} {} {}", linear, key, value, start);
                }
            }
        }
    }
}

#[test]
fn pitch_slides_keep_their_direction() {
    let m = module(vec![], vec![], vec![255]);
    for linear in [false, true] {
        for value in [0u8, 1, 0x10, 0xE1, 0xF1, 0xFF] {
            for start in [0u64, 1, 100 * ONE, 8363 * ONE, FREQ_LIMIT] {
                let mut c = Channel::new(&m);
                c.freq = start;
                c.porta_up(linear, value);
                assert!(c.freq >= start);
                let mut c = Channel::new(&m);
                c.freq = start;
                c.porta_down(linear, value);
                assert!(c.freq <= start);
            }
        }
    }
}

#[test]
fn tone_portamento_without_sample_only_remembers() {
    let m = module(vec![], vec![], vec![255]);
    let mut c = Channel::new(&m);
    c.tone_portamento(Note::On(70), true, 0x08);
    assert_eq!(c.last_note, 70);
    assert_eq!(c.porta_memory, 0x08);
    assert_eq!(c.freq, 8363 * ONE);
}

#[test]
fn advance_position_without_loop() {
    let m = module(vec![sample(ramp(10), 48000, LoopType::Off, 0, 0)], vec![], vec![255]);
    let mut c = Channel::new(&m);
    c.play_cell(&note_cell(60, 1));
    assert!(c.advance_position(3 * ONE + 5));
    assert_eq!(c.position, 3 * ONE + 5);
    assert!(c.advance_position(0));
    assert_eq!(c.position, 3 * ONE + 5);
    assert!(!c.advance_position(7 * ONE));
    assert!(!c.playing);
    assert_eq!(c.position, 10 * ONE);
    assert!(!c.advance_position(ONE));
    assert_eq!(c.position, 10 * ONE);
}

#[test]
fn advance_position_in_forward_loop() {
    let m = module(vec![sample(ramp(10), 48000, LoopType::Forward, 4, 8)], vec![], vec![255]);
    let mut c = Channel::new(&m);
    c.play_cell(&note_cell(60, 1));
    assert!(c.advance_position(7 * ONE + 1));
    assert_eq!(c.position, 7 * ONE + 1);
    assert!(c.advance_position(ONE - 1));
    assert_eq!(c.position, 4 * ONE);
    assert!(c.advance_position(4 * ONE * 1000 + 3 * ONE + 9));
    assert_eq!(c.position, 7 * ONE + 9);
    assert!(!c.backwards);
}

#[test]
fn advance_position_in_ping_pong_loop() {
    let m = module(vec![sample(ramp(10), 48000, LoopType::PingPong, 4, 8)], vec![], vec![255]);
    let mut c = Channel::new(&m);
    c.play_cell(&note_cell(60, 1));
    assert!(c.advance_position(8 * ONE));
    assert_eq!((c.position, c.backwards), (8 * ONE, true));
    assert!(c.advance_position(ONE));
    assert_eq!((c.position, c.backwards), (7 * ONE, true));
    assert!(c.advance_position(3 * ONE));
    assert_eq!((c.position, c.backwards), (4 * ONE, false));
    assert!(c.advance_position(5 * ONE));
    assert_eq!((c.position, c.backwards), (7 * ONE, true));
    // Eight frames are once there and back.
    assert!(c.advance_position(8 * ONE * 77));
    assert_eq!((c.position, c.backwards), (7 * ONE, true));
    assert!(c.advance_position(3 * ONE + 2 * ONE));
    assert_eq!((c.position, c.backwards), (6 * ONE, false));
}

#[test]
fn row_binds_instrument_and_volume() {
    let mut quiet = sample(ramp(10), 8363, LoopType::Off, 0, 0);
    quiet.default_volume = 20;
    let mut loud = sample(ramp(10), 8363, LoopType::Off, 0, 0);
    loud.default_volume = 200;
    let m = module(vec![quiet, loud], vec![], vec![255]);
    let one = ONE as u32;
    let mut c = Channel::new(&m);
    c.play_cell(&Column { instrument: 1, ..empty_cell() });
    assert_eq!(c.current_sample_index, 0);
    assert_eq!(c.volume, 20 * one);
    assert!(!c.playing);
    // A default volume above 64 counts as 64.
    c.play_cell(&Column { instrument: 2, ..empty_cell() });
    assert_eq!(c.current_sample_index, 1);
    assert_eq!(c.volume, VOLUME_MAX);
    // A volume in the volume column wins over the default.
    c.play_cell(&Column { instrument: 1, vol: VolEffect::Volume(33), ..empty_cell() });
    assert_eq!(c.volume, 33 * one);
    c.play_cell(&Column { vol: VolEffect::Volume(99), ..empty_cell() });
    assert_eq!(c.volume, VOLUME_MAX);
    // Any other volume-column effect keeps the volume.
    c.play_cell(&Column { vol: VolEffect::Volume(5), ..empty_cell() });
    c.play_cell(&Column { instrument: 1, vol: VolEffect::SetPan(3), ..empty_cell() });
    assert_eq!(c.volume, 5 * one);
    // An instrument that does not exist binds the last sample.
    c.play_cell(&Column { instrument: 9, ..empty_cell() });
    assert_eq!(c.current_sample_index, 1);
}

#[test]
fn row_starts_and_stops_notes() {
    let m = module(vec![sample(ramp(1000), 8363, LoopType::Off, 0, 0)], vec![], vec![255]);
    let mut c = Channel::new(&m);
    c.play_cell(&note_cell(72, 1));
    assert!(c.playing);
    assert_eq!(c.freq, 2 * 8363 * ONE);
    assert_eq!(c.position, 0);
    c.advance_position(5 * ONE);
    // A note with a tone portamento does not start anything.
    c.play_cell(&Column { effect: Effect::TonePorta(4), ..note_cell(60, 0) });
    assert_eq!(c.freq, 2 * 8363 * ONE);
    assert_eq!(c.position, 5 * ONE);
    c.play_cell(&Column { vol: VolEffect::TonePorta(4), ..note_cell(60, 0) });
    assert_eq!(c.position, 5 * ONE);
    c.play_cell(&Column { note: Note::Fade, ..empty_cell() });
    assert!(c.playing);
    c.play_cell(&Column { note: Note::Cut, ..empty_cell() });
    assert!(!c.playing);
    c.play_cell(&note_cell(60, 0));
    assert!(c.playing);
    assert_eq!(c.position, 0);
    c.play_cell(&Column { note: Note::Off, ..empty_cell() });
    assert!(!c.playing);
}

#[test]
fn row_with_sample_offset() {
    let m = module(
        vec![
            sample(vec![0; 1000], 8363, LoopType::Off, 0, 0),
            sample(vec![0; 1000], 8363, LoopType::Forward, 100, 200),
        ],
        vec![],
        vec![255],
    );
    let mut c = Channel::new(&m);
    c.play_cell(&Column { effect: Effect::SampleOffset(2), ..note_cell(60, 1) });
    assert_eq!(c.position, 512 * ONE);
    assert_eq!(c.offset_memory, 2);
    c.play_cell(&Column { effect: Effect::SampleOffset(0), ..note_cell(60, 1) });
    assert_eq!(c.position, 512 * ONE);
    // Past the end of a sample without loop there is nothing to play.
    c.play_cell(&Column { effect: Effect::SampleOffset(4), ..note_cell(60, 1) });
    assert!(!c.playing);
    assert_eq!(c.position, 1000 * ONE);
    // Past the end of a loop play goes on from the loop start.
    c.play_cell(&Column { effect: Effect::SampleOffset(1), ..note_cell(60, 2) });
    assert!(c.playing);
    assert_eq!(c.position, 100 * ONE);
}

#[test]
fn note_without_any_sample_is_silent() {
    let m = module(vec![], vec![], vec![255]);
    let mut c = Channel::new(&m);
    c.play_cell(&note_cell(60, 1));
    assert!(!c.playing);
    let mut slab = vec![3i32; 8];
    c.add_to_slab(&mut slab, 48000, Interpolation::Nearest);
    assert_eq!(slab, vec![3i32; 8]);
}

#[test]
fn sequencer_walks_rows_and_orders() {
    let rows = |n: usize| -> Pattern { vec![vec![empty_cell()]; n] };
    let m = module(vec![], vec![rows(2), rows(3)], vec![1, 254, 9, 0, 255]);
    let mut p = Player::from_module(&m, 48000);
    let mut seen = Vec::new();
    for _ in 0..7 {
        p.advance_row();
        seen.push((p.ended, p.current_position, p.current_pattern, p.current_row));
    }
    assert_eq!(
        seen,
        vec![
            (false, 0, 1, 0),
            (false, 0, 1, 1),
            (false, 0, 1, 2),
            // The skip marker and the order that names no pattern are
            // passed over.
            (false, 3, 0, 0),
            (false, 3, 0, 1),
            (true, 3, 0, 1),
            (true, 3, 0, 1),
        ]
    );
}

#[test]
fn sequencer_jumps_and_breaks() {
    let mut first: Pattern = vec![vec![empty_cell(); 2]; 4];
    first[1][1] = effect_cell(Effect::PosJump(2));
    let mut second: Pattern = vec![vec![empty_cell(); 2]; 4];
    second[0][0] = effect_cell(Effect::PatBreak(3));
    let mut third: Pattern = vec![vec![empty_cell(); 2]; 4];
    third[3][0] = effect_cell(Effect::PatBreak(9));
    third[3][1] = effect_cell(Effect::PosJump(0));
    let m = module(vec![], vec![first, second, third], vec![0, 2, 1, 2, 255]);
    let mut p = Player::from_module(&m, 48000);
    let mut seen = Vec::new();
    for _ in 0..8 {
        p.advance_row();
        seen.push((p.ended, p.current_position, p.current_pattern, p.current_row));
    }
    assert_eq!(
        seen,
        vec![
            (false, 0, 0, 0),
            (false, 0, 0, 1),
            // The jump leads to order 2, which holds the second pattern.
            (false, 2, 1, 0),
            // Its break leads to row 3 of the order after.
            (false, 3, 2, 3),
            // Jump to order 0 and break to the order after, row 9, which
            // the pattern there does not have: on to the next order.
            (false, 2, 1, 0),
            (false, 3, 2, 3),
            (false, 2, 1, 0),
            (false, 3, 2, 3),
        ]
    );
}

#[test]
fn sequencer_break_into_the_end_marker_ends_the_song() {
    let mut only: Pattern = vec![vec![empty_cell()]; 4];
    only[0][0] = effect_cell(Effect::PatBreak(0));
    let m = module(vec![], vec![only], vec![0, 255]);
    let mut p = Player::from_module(&m, 48000);
    p.advance_row();
    assert!(!p.ended);
    p.advance_row();
    assert!(p.ended);
}

#[test]
fn sequencer_takes_speed_and_tempo_from_the_row_it_leaves() {
    let mut pattern: Pattern = vec![vec![empty_cell(); 3]; 4];
    pattern[0][0] = effect_cell(Effect::SetSpeed(9));
    pattern[0][1] = effect_cell(Effect::SetTempo(250));
    pattern[0][2] = effect_cell(Effect::SetSpeed(4));
    let m = module(vec![], vec![pattern], vec![0, 255]);
    let mut p = Player::from_module(&m, 48000);
    p.advance_row();
    assert_eq!((p.current_speed, p.current_tempo, p.tick_slab), (3, 125, 960));
    p.advance_row();
    assert_eq!((p.current_speed, p.current_tempo, p.tick_slab), (4, 250, 480));
    assert_eq!(p.current_row, 1);
}

#[test]
fn sequencer_starts_where_it_is_told() {
    let rows = |n: usize| -> Pattern { vec![vec![empty_cell()]; n] };
    let m = module(vec![], vec![rows(2), rows(3)], vec![0, 1, 255]);
    let mut p = Player::from_module(&m, 48000);
    p.current_position = 1;
    p.advance_row();
    assert_eq!((p.current_position, p.current_pattern, p.current_row), (1, 1, 0));
    let mut p = Player::from_module(&m, 48000);
    p.current_position = 200;
    p.advance_row();
    assert!(p.ended);
}

#[test]
fn rows_wider_than_the_players_channels_are_cut() {
    let m = module(
        vec![sample(ramp(10), 8363, LoopType::Off, 0, 0)],
        vec![vec![vec![note_cell(60, 1), note_cell(62, 1)]]],
        vec![0, 255],
    );
    let mut p = Player::from_module(&m, 48000);
    p.channels.pop();
    p.advance_row();
    p.play_row();
    p.process_tick();
    assert_eq!(p.channels.len(), 1);
    assert!(p.channels[0].playing);
}

#[test]
fn nearest_interpolation() {
    let m = module(vec![], vec![], vec![255]);
    let c = Channel::new(&m);
    let mut to = vec![0i32; 6];
    c.interpolate_buffers(&[100, -200, 300], &mut to, Interpolation::Nearest);
    assert_eq!(to, vec![100, 100, -200, -200, 300, 300].iter().map(|f| f * 32768).collect::<Vec<i32>>());
    let mut to = vec![0i32; 2];
    c.interpolate_buffers(&[1, 2, 3, 4, 5, 6], &mut to, Interpolation::Nearest);
    assert_eq!(to, vec![32768, 4 * 32768]);
    let mut to = vec![0i32; 1];
    c.interpolate_buffers(&[-32768], &mut to, Interpolation::Nearest);
    assert_eq!(to, vec![-32768 * 32768]);
    let mut back = Channel::new(&m);
    back.backwards = true;
    let mut to = vec![0i32; 6];
    back.interpolate_buffers(&[100, -200, 300], &mut to, Interpolation::Nearest);
    assert_eq!(to, vec![300, 300, -200, -200, 100, 100].iter().map(|f| f * 32768).collect::<Vec<i32>>());
}

#[test]
fn linear_interpolation() {
    let mut to = vec![0i32; 3];
    buf_linear(&[0, 1000], &mut to, false);
    assert_eq!(to, vec![0, 500 * 32768, 1000 * 32768]);
    buf_linear(&[0, 1000], &mut to, true);
    assert_eq!(to, vec![1000 * 32768, 500 * 32768, 0]);
    let mut to = vec![0i32; 5];
    buf_linear(&[-1000, 1000, 3000], &mut to, false);
    assert_eq!(to, vec![-1000, 0, 1000, 2000, 3000].iter().map(|f| f * 32768).collect::<Vec<i32>>());
    // A single stored frame is repeated; a single output frame reads the
    // first stored one, or the last when playing backwards.
    let mut to = vec![0i32; 3];
    buf_linear(&[77], &mut to, false);
    assert_eq!(to, vec![77 * 32768; 3]);
    let mut to = vec![0i32; 1];
    buf_linear(&[5, 6, 7], &mut to, false);
    assert_eq!(to, vec![5 * 32768]);
    buf_linear(&[5, 6, 7], &mut to, true);
    assert_eq!(to, vec![7 * 32768]);
    let mut to: Vec<i32> = vec![];
    buf_linear(&[5, 6, 7], &mut to, false);
    assert!(to.is_empty());
    // Halves are rounded down.
    let mut to = vec![0i32; 3];
    buf_linear(&[0, -1], &mut to, false);
    assert_eq!(to, vec![0, -16384, -32768]);
}

#[test]
fn sinc_interpolation_at_stored_frames_is_exact() {
    let from = [100i16, 200, 300, -400, 500];
    for quality in [8isize, 16, 32] {
        for pingpong in [false, true] {
            let mut to = vec![0i32; 4];
            buf_sinc(&from, &mut to, false, quality, pingpong);
            assert_eq!(to, vec![100 * 32768, 200 * 32768, 300 * 32768, -400 * 32768]);
            buf_sinc(&from, &mut to, true, quality, pingpong);
            assert_eq!(to, vec![500 * 32768, -400 * 32768, 300 * 32768, 200 * 32768]);
        }
    }
}

#[test]
fn sinc_interpolation_between_frames() {
    // Between two equal neighbours of a long constant stretch the sum of
    // the weights is close to one.
    let from = [1000i16; 64];
    let mut to = vec![0i32; 126];
    buf_sinc(&from, &mut to, false, 32, true);
    for (i, frame) in to.iter().enumerate() {
        let got = *frame as f64 / 32768.0;
        assert!((got - 1000.0).abs() < 25.0, "frame {}: {}", i, got);
    }
    // Half way between 0 and 1000 with silence around: 1000 * sinc(1/2).
    let mut to = vec![0i32; 2];
    buf_sinc(&[0, 1000], &mut to, false, 8, false);
    assert_eq!(to[0], 0);
    let mut weights = 0.0;
    for k in -7..=8i32 {
        let x = k as f64 - 0.5;
        let w = (std::f64::consts::PI * x).sin() / (std::f64::consts::PI * x);
        // Odd places hold the 1000 of the two frames taken round.
        if k.rem_euclid(2) == 1 {
            weights += w;
        }
    }
    let got = to[1] as f64 / 32768.0;
    assert!((got - 1000.0 * weights).abs() < 2.0, "{} against {}", got, 1000.0 * weights);
}

#[test]
fn volumes_scale_frames() {
    let mut s = sample(vec![0; 4], 8363, LoopType::Off, 0, 0);
    s.global_volume = 32;
    let mut loud = sample(vec![0; 4], 8363, LoopType::Off, 0, 0);
    loud.global_volume = 255;
    let m = module(vec![s, loud], vec![], vec![255]);
    let mut c = Channel::new(&m);
    c.volume = 16 * ONE as u32;
    let mut frames = vec![1 << 30, -(1 << 30), 1000, -1000, 7, -7, 0];
    c.apply_volumes(&mut frames);
    assert_eq!(frames, vec![1 << 27, -(1 << 27), 125, -125, 0, 0, 0]);
    // A sample volume above 64 counts as 64.
    c.current_sample_index = 1;
    c.volume = VOLUME_MAX;
    let mut frames = vec![i32::MAX, i32::MIN, 12345];
    c.apply_volumes(&mut frames);
    assert_eq!(frames, vec![i32::MAX, i32::MIN, 12345]);
    // Without a sample there is nothing to hear.
    c.current_sample_index = 2;
    let mut frames = vec![5000, -5000];
    c.apply_volumes(&mut frames);
    assert_eq!(frames, vec![0, 0]);
}

#[test]
fn segments_end_at_the_end_of_the_sample() {
    let m = module(vec![sample(vec![100, 200, 300, 400], 48000, LoopType::Off, 0, 0)], vec![], vec![255]);
    let mut c = Channel::new(&m);
    c.play_cell(&note_cell(60, 1));
    let mut slab = vec![1i32; 6];
    c.add_to_slab(&mut slab, 48000, Interpolation::Nearest);
    assert_eq!(
        slab,
        vec![100 * 32768 + 1, 200 * 32768 + 1, 300 * 32768 + 1, 400 * 32768 + 1, 1, 1]
    );
    assert!(!c.playing);
    assert_eq!(c.position, 4 * ONE);
}

#[test]
fn segments_are_cut_at_the_end_of_the_slab() {
    let m = module(vec![sample(ramp(100), 24000, LoopType::Off, 0, 0)], vec![], vec![255]);
    let mut c = Channel::new(&m);
    c.play_cell(&note_cell(60, 1));
    // At half the output rate eight output frames cover four stored ones.
    let mut slab = vec![0i32; 8];
    c.add_to_slab(&mut slab, 48000, Interpolation::Nearest);
    assert_eq!(
        slab,
        vec![0, 0, 100, 100, 200, 200, 300, 300].iter().map(|f| f * 32768).collect::<Vec<i32>>()
    );
    assert!(c.playing);
    assert_eq!(c.position, 4 * ONE);
}

#[test]
fn forward_loop_goes_round() {
    let m = module(
        vec![sample(vec![10, 20, 30, 40, 50], 48000, LoopType::Forward, 2, 4)],
        vec![],
        vec![255],
    );
    let mut c = Channel::new(&m);
    c.play_cell(&note_cell(60, 1));
    let mut slab = vec![0i32; 9];
    c.add_to_slab(&mut slab, 48000, Interpolation::Nearest);
    assert_eq!(
        slab,
        vec![10, 20, 30, 40, 30, 40, 30, 40, 30].iter().map(|f| f * 32768).collect::<Vec<i32>>()
    );
    assert_eq!(c.position, 3 * ONE);
}

#[test]
fn voice_of_frequency_zero_stands_still() {
    let m = module(vec![sample(ramp(10), 0, LoopType::Off, 0, 0)], vec![], vec![255]);
    let mut c = Channel::new(&m);
    c.play_cell(&note_cell(60, 1));
    assert_eq!(c.freq, 0);
    let mut slab = vec![9i32; 5];
    c.add_to_slab(&mut slab, 48000, Interpolation::Linear);
    assert_eq!(slab, vec![9i32; 5]);
    assert!(c.playing);
    assert_eq!(c.position, 0);
}

#[test]
fn channels_add_up_and_saturate() {
    let loud = sample(vec![32767; 8], 48000, LoopType::Off, 0, 0);
    let deep = sample(vec![-32768; 8], 48000, LoopType::Off, 0, 0);
    let m = module(vec![loud, deep], vec![], vec![255]);
    let mut slab = vec![0i32; 8];
    for voices in 1..=3 {
        let mut c = Channel::new(&m);
        c.play_cell(&note_cell(60, 1));
        c.add_to_slab(&mut slab, 48000, Interpolation::Nearest);
        let expected = if voices < 3 { voices * 32767 * 32768 } else { i32::MAX };
        assert_eq!(slab, vec![expected; 8]);
    }
    let mut slab = vec![0i32; 8];
    for voices in 1..=3 {
        let mut c = Channel::new(&m);
        c.play_cell(&note_cell(60, 2));
        c.add_to_slab(&mut slab, 48000, Interpolation::Nearest);
        let expected = if voices < 3 { voices * -32768 * 32768 } else { i32::MIN };
        assert_eq!(slab, vec![expected; 8]);
    }
}

#[test]
fn player_adds_its_channels_in_order() {
    let loud = sample(vec![32767; 8], 48000, LoopType::Off, 0, 0);
    let deep = sample(vec![-32768; 8], 48000, LoopType::Off, 0, 0);
    let m = module(
        vec![loud, deep],
        vec![
            vec![vec![note_cell(60, 1), note_cell(60, 1), note_cell(60, 1), note_cell(60, 2)]],
            vec![vec![note_cell(60, 2), note_cell(60, 1), note_cell(60, 1), note_cell(60, 1)]],
        ],
        vec![0, 1, 255],
    );
    let mut p = Player::from_module(&m, 48000);
    p.interpolation = Interpolation::Nearest;
    p.current_speed = 1;
    let out = run_ticks(&mut p, 3);
    assert!(out[..960].iter().all(|f| *f == 0));
    // Three loud voices reach the bound, and the deep one then takes its
    // full depth from there.
    assert_eq!(out[960..968], [i32::MAX - 32768 * 32768; 8]);
    assert!(out[968..1920].iter().all(|f| *f == 0));
    // The other way round the sum never reaches a bound.
    assert_eq!(out[1920..1928], [(-32768i64 * 32768 + 3 * 32767 * 32768) as i32; 8]);
}

fn busy_module() -> Module {
    let lead = sample(ramp(300), 22050, LoopType::PingPong, 40, 260);
    let bass = sample((0..500).map(|i| ((i * 37) % 2000 - 1000) as i16).collect(), 11025, LoopType::Forward, 100, 400);
    let hit = sample((0..200).map(|i| (20000 - i * 100) as i16).collect(), 44100, LoopType::Off, 0, 0);
    let mut pattern: Pattern = vec![vec![empty_cell(); 3]; 8];
    pattern[0][0] = note_cell(60, 1);
    pattern[0][1] = note_cell(48, 2);
    pattern[0][2] = note_cell(65, 3);
    pattern[1][0] = effect_cell(Effect::PortaUp(0x08));
    pattern[1][1] = effect_cell(Effect::VolSlide(0x04));
    pattern[2][0] = Column { effect: Effect::TonePorta(0x10), ..note_cell(67, 0) };
    pattern[2][2] = Column { effect: Effect::Retrig(0x92), ..note_cell(60, 3) };
    pattern[3][1] = effect_cell(Effect::SetTempo(180));
    pattern[4][0] = Column { effect: Effect::SampleOffset(1), ..note_cell(55, 1) };
    pattern[5][1] = effect_cell(Effect::PortaDown(0xF4));
    pattern[6][2] = Column { vol: VolEffect::Volume(20), ..note_cell(72, 3) };
    pattern[7][0] = effect_cell(Effect::SetSpeed(2));
    module(vec![lead, bass, hit], vec![pattern], vec![0, 0, 255])
}

#[test]
fn same_state_gives_same_output() {
    let m = busy_module();
    for interpolation in [Interpolation::Nearest, Interpolation::Linear, Interpolation::Sinc8] {
        let mut a = Player::from_module(&m, 48000);
        let mut b = Player::from_module(&m, 48000);
        a.interpolation = interpolation;
        b.interpolation = interpolation;
        let mut heard = false;
        for _ in 0..40 {
            let mut x = vec![1i32; 1777];
            let mut y = vec![2i32; 1777];
            let more_a = a.process_to_buffer(&mut x);
            let more_b = b.process_to_buffer(&mut y);
            assert_eq!(x, y);
            assert_eq!(more_a, more_b);
            heard = heard || x.iter().any(|f| *f != 0);
        }
        assert!(heard);
    }
}

#[test]
fn output_cut_at_a_tick_boundary_is_the_same() {
    let m = busy_module();
    let mut whole = Player::from_module(&m, 48000);
    let mut parts = Player::from_module(&m, 48000);
    // Ticks are 960 frames long until the tempo changes.
    let mut long = vec![0i32; 2 * 2880];
    whole.process_to_buffer(&mut long);
    let mut first = vec![0i32; 2880];
    let mut second = vec![0i32; 2880];
    parts.process_to_buffer(&mut first);
    assert_eq!(parts.tick_counter, 0);
    parts.process_to_buffer(&mut second);
    first.extend(second);
    assert_eq!(long, first);
    assert!(long.iter().any(|f| *f != 0));
    assert_eq!(whole.current_row, parts.current_row);
    assert_eq!(whole.channels[0].position, parts.channels[0].position);
}

#[test]
fn positions_stay_inside_the_audio() {
    let m = busy_module();
    let mut p = Player::from_module(&m, 48000);
    let mut more = true;
    let mut rounds = 0;
    while more && rounds < 1000 {
        let mut buf = vec![0i32; 333];
        more = p.process_to_buffer(&mut buf);
        for c in &p.channels {
            let s = &m.samples[c.current_sample_index as usize];
            assert!(c.position <= s.audio.len() as u64 * ONE);
            assert!(c.volume <= VOLUME_MAX);
            if c.playing {
                match s.loop_type {
                    LoopType::Off => assert!(c.position < s.audio.len() as u64 * ONE),
                    _ => assert!(c.position <= s.loop_end as u64 * ONE),
                }
            }
        }
        rounds += 1;
    }
    assert!(p.ended);
}

#[test]
fn player_handles_samples_with_loops_outside_their_audio() {
    let broken = Sample {
        base_frequency: 48000,
        loop_type: LoopType::Forward,
        loop_start: 2,
        loop_end: 900,
        default_volume: 64,
        global_volume: 64,
        audio: vec![10, 20, 30, 40],
    };
    let inverted = Sample {
        base_frequency: 48000,
        loop_type: LoopType::PingPong,
        loop_start: 3,
        loop_end: 1,
        default_volume: 64,
        global_volume: 64,
        audio: vec![10, 20, 30, 40],
    };
    let m = module(vec![broken, inverted], vec![], vec![255]);
    let mut c = Channel::new(&m);
    c.play_cell(&note_cell(60, 1));
    let mut slab = vec![0i32; 7];
    c.add_to_slab(&mut slab, 48000, Interpolation::Nearest);
    assert_eq!(
        slab,
        vec![10, 20, 30, 40, 30, 40, 30].iter().map(|f| f * 32768).collect::<Vec<i32>>()
    );
    c.play_cell(&note_cell(60, 2));
    let mut slab = vec![0i32; 7];
    c.add_to_slab(&mut slab, 48000, Interpolation::Nearest);
    assert_eq!(
        slab,
        vec![10, 20, 30, 40, 0, 0, 0].iter().map(|f| f * 32768).collect::<Vec<i32>>()
    );
    assert!(!c.playing);
}

#[test]
fn messages_take_effect_between_ticks() {
    let m = busy_module();
    let mut p = Player::from_module(&m, 48000);
    assert!(p.is_consistent());
    run_ticks(&mut p, 4);
    // On a tick boundary a pause holds at once.
    p.handle_message(Message::Pause);
    assert!(p.paused);
    let row = p.current_row;
    let position = p.channels[0].position;
    let mut buf = vec![5i32; 3000];
    assert!(p.process_to_buffer(&mut buf));
    assert_eq!(buf, vec![0i32; 3000]);
    assert_eq!((p.current_row, p.tick_counter, p.channels[0].position), (row, 0, position));
    p.handle_message(Message::Resume);
    assert!(!p.paused);
    // Inside a tick a message waits for the end of the tick.
    let mut buf = vec![0i32; 100];
    assert!(p.process_to_buffer(&mut buf));
    p.handle_message(Message::Pause);
    p.handle_message(Message::Stop);
    assert!(!p.paused && !p.ended);
    assert_eq!(p.pending, Some(Message::Stop));
    let mut buf = vec![0i32; 2000];
    assert!(!p.process_to_buffer(&mut buf));
    assert!(p.ended);
    assert_eq!(p.pending, None);
    // The tick is played to its end, and then there is silence.
    assert!(buf[..860].iter().any(|f| *f != 0));
    assert!(buf[860..].iter().all(|f| *f == 0));
    assert!(p.is_consistent());
}

#[test]
fn consistency_is_tested() {
    let m = busy_module();
    let mut p = Player::from_module(&m, 48000);
    run_ticks(&mut p, 4);
    assert!(p.is_consistent());
    assert!(p.channels.iter().all(|c| c.is_consistent()));
    p.channels[0].volume = VOLUME_MAX + 1;
    assert!(!p.channels[0].is_consistent());
    assert!(!p.is_consistent());
    p.channels[0].volume = VOLUME_MAX;
    p.channels[0].position = u64::MAX;
    assert!(!p.is_consistent());
    p.channels[0].position = 0;
    p.channels[0].playing = false;
    assert!(p.is_consistent());
    p.tick_slab = 1;
    assert!(!p.is_consistent());
    p.tick_slab = 960;
    p.current_row = 100;
    assert!(!p.is_consistent());
    p.ended = true;
    assert!(p.is_consistent());
}

#[test]
fn looped_tone_keeps_its_pitch() {
    // One period of a sine in 64 frames, looped; at the base frequency it
    // sounds at 440 Hz.
    let wave: Vec<i16> =
        (0..64).map(|i| ((i as f64 / 64.0 * std::f64::consts::TAU).sin() * 30000.0) as i16).collect();
    let m = module(vec![sample(wave, 64 * 440, LoopType::Forward, 0, 64)], vec![], vec![255]);
    for interpolation in [Interpolation::Nearest, Interpolation::Linear, Interpolation::Sinc8] {
        let mut c = Channel::new(&m);
        c.play_cell(&note_cell(60, 1));
        let mut out = Vec::new();
        for _ in 0..50 {
            let mut slab = vec![0i32; 960];
            c.add_to_slab(&mut slab, 48000, interpolation);
            out.extend(slab);
        }
        let rising = out.windows(2).filter(|w| w[0] < 0 && w[1] >= 0).count();
        // The sinc reads round the ends of each stretch it is given, which
        // adds a crossing here and there.
        let most = if interpolation == Interpolation::Sinc8 { 480 } else { 446 };
        assert!((436..=most).contains(&rising), "{:?}: {} periods", interpolation, rising);
        let peak = out.iter().map(|f| f.abs()).max().unwrap();
        assert!(peak > 29000 * 32768);
    }
}

#[test]
fn resampled_ramp_follows_the_position() {
    // A ramp played at three quarters of the output rate: each output frame
    // lies near the value of the ramp at its place.
    let m = module(vec![sample(ramp(300), 36000, LoopType::Off, 0, 0)], vec![], vec![255]);
    let mut c = Channel::new(&m);
    c.play_cell(&note_cell(60, 1));
    let mut slab = vec![0i32; 200];
    c.add_to_slab(&mut slab, 48000, Interpolation::Linear);
    assert_eq!(c.position, 150 * ONE);
    for (i, frame) in slab.iter().enumerate() {
        let got = *frame as f64 / 32768.0;
        let exact = i as f64 * 0.75 * 100.0;
        assert!((got - exact).abs() <= 100.0, "frame {}: {} against {}", i, got, exact);
    }
    // The next stretch goes on where this one ended.
    let mut slab = vec![0i32; 100];
    c.add_to_slab(&mut slab, 48000, Interpolation::Linear);
    assert_eq!(c.position, 225 * ONE);
    assert!((slab[0] as f64 / 32768.0 - 15000.0).abs() <= 100.0);
}

#[test]
fn looping_samples_hold_their_loops_inside_the_audio() {
    let m = busy_module();
    for s in &m.samples {
        if s.loop_type != LoopType::Off {
            assert!(s.loop_start < s.loop_end && s.loop_end as usize <= s.audio.len());
        }
    }
}

#[test]
fn a_stretch_cut_inside_a_tick_reads_other_frames() {
    // At half the output rate one output frame moves the voice by half a
    // stored frame: a stretch of one frame reads no stored frame at all.
    let m = module(vec![sample(vec![500, 600, 700], 24000, LoopType::Off, 0, 0)], vec![], vec![255]);
    let mut whole = Channel::new(&m);
    whole.play_cell(&note_cell(60, 1));
    let mut two = vec![0i32; 2];
    whole.add_to_slab(&mut two, 48000, Interpolation::Nearest);
    assert_eq!(two, vec![500 * 32768, 500 * 32768]);
    let mut parts = Channel::new(&m);
    parts.play_cell(&note_cell(60, 1));
    let mut first = vec![0i32; 1];
    let mut second = vec![0i32; 1];
    parts.add_to_slab(&mut first, 48000, Interpolation::Nearest);
    parts.add_to_slab(&mut second, 48000, Interpolation::Nearest);
    assert_eq!((first[0], second[0]), (0, 500 * 32768));
    assert_eq!(whole.position, parts.position);
}

#[test]
fn output_cut_inside_a_silent_tick_is_the_same() {
    let m = busy_module();
    let mut whole = Player::from_module(&m, 48000);
    let mut parts = Player::from_module(&m, 48000);
    // Before the first row no channel plays.
    let mut long = vec![1i32; 700];
    whole.process_to_buffer(&mut long);
    let mut first = vec![2i32; 250];
    let mut second = vec![3i32; 450];
    parts.process_to_buffer(&mut first);
    assert_eq!(parts.tick_counter, 250);
    parts.process_to_buffer(&mut second);
    first.extend(second);
    assert_eq!(long, first);
    assert_eq!(whole.tick_counter, parts.tick_counter);
    assert_eq!(whole.ticks_passed, parts.ticks_passed);
}

#[test]
fn song_ends_with_its_last_row() {
    let m = module(vec![], vec![vec![vec![empty_cell()]; 4]], vec![0, 255]);
    let mut p = Player::from_module(&m, 48000);
    for _ in 0..4 {
        p.advance_row();
        assert!(!p.ended);
    }
    assert_eq!(p.current_row, 3);
    p.advance_row();
    assert!(p.ended);
}
