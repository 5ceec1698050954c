use modplay::engine::error::{LoadError, Unsupported};
use modplay::engine::format_stm::{translate_early_tempo, STMColumn, STMModule};
use modplay::engine::module::{
    Column, Effect, LoopType, ModuleInterface, Note, PlaybackMode, S3MOptions, VolEffect,
};
use modplay::engine::stm_tools::{calculate_stm_tempo, stm_tempo_in_range};

fn stm_put_u16(image: &mut Vec<u8>, at: usize, value: u16) {
    image[at] = (value & 0xFF) as u8;
    image[at + 1] = (value >> 8) as u8;
}

/// A whole file with `patterns` patterns of cells that are passed over,
/// except for what `cells` puts at the start of the first.
fn stm_file(minor: u8, tempo: u8, patterns: u8, cells: &[u8], cells_given: usize) -> Vec<u8> {
    let mut image = vec![0u8; 0x490];
    image[0..8].copy_from_slice(b"STM tune");
    image[0x14..0x1C].copy_from_slice(b"!Scream!");
    image[0x1C] = 0x1A;
    image[0x1D] = 2;
    image[0x1E] = 2;
    image[0x1F] = minor;
    image[0x20] = tempo;
    image[0x21] = patterns;
    image[0x22] = 64;
    for i in 0..128 {
        image[0x410 + i] = 99;
    }
    image[0x410] = 0;
    image[0x411] = 62;
    image[0x412] = 63;
    image[0x413] = 1;
    if patterns > 0 {
        image.extend_from_slice(cells);
        image.extend(vec![0xFCu8; 256 - cells_given]);
        for _ in 1..patterns {
            image.extend(vec![0xFCu8; 256]);
        }
    }
    image
}

/// Writes the descriptor of sample `index` and its data at paragraph
/// `paragraph`.
fn stm_add_sample(
    image: &mut Vec<u8>,
    index: usize,
    paragraph: u16,
    length: u16,
    loop_begin: u16,
    loop_end: u16,
    volume: u8,
    data: &[u8],
) {
    let at = 48 + 32 * index;
    image[at..at + 6].copy_from_slice(b"sample");
    stm_put_u16(image, at + 14, paragraph);
    stm_put_u16(image, at + 16, length);
    stm_put_u16(image, at + 18, loop_begin);
    stm_put_u16(image, at + 20, loop_end);
    image[at + 22] = volume;
    stm_put_u16(image, at + 24, 8448);
    let start = paragraph as usize * 16;
    if image.len() < start + data.len() {
        image.resize(start + data.len(), 0);
    }
    image[start..start + data.len()].copy_from_slice(data);
}

fn stm_untouched_column() -> STMColumn {
    STMColumn { note: 255, instrument: 0, vol: 255, effect: 0, effect_value: 0 }
}

#[test]
fn stm_rejects_empty_input() {
    assert_eq!(STMModule::load(&[]).err(), Some(LoadError::Truncated));
}

#[test]
fn stm_rejects_tracker_name_that_is_not_ascii() {
    let mut image = stm_file(21, 0x60, 0, &[], 0);
    image[0x17] = 0x80;
    assert_eq!(STMModule::load(&image).err(), Some(LoadError::InvalidSignature));
}

#[test]
fn stm_rejects_song_files() {
    let mut image = stm_file(21, 0x60, 0, &[], 0);
    image[0x1D] = 1;
    assert_eq!(
        STMModule::load(&image).err(),
        Some(LoadError::UnsupportedVariant(Unsupported::StmSong))
    );
}

#[test]
fn stm_rejects_unknown_file_type() {
    let mut image = stm_file(21, 0x60, 0, &[], 0);
    image[0x1D] = 3;
    assert_eq!(STMModule::load(&image).err(), Some(LoadError::InvalidSignature));
}

#[test]
fn stm_rejects_unknown_version() {
    let image = stm_file(22, 0x60, 0, &[], 0);
    assert_eq!(
        STMModule::load(&image).err(),
        Some(LoadError::UnsupportedVariant(Unsupported::StmVersion))
    );
    let mut image = stm_file(21, 0x60, 0, &[], 0);
    image[0x1E] = 1;
    assert_eq!(
        STMModule::load(&image).err(),
        Some(LoadError::UnsupportedVariant(Unsupported::StmVersion))
    );
}

#[test]
fn stm_accepts_every_known_version() {
    for minor in [0u8, 10, 20, 21] {
        assert!(STMModule::load(&stm_file(minor, 0x60, 0, &[], 0)).is_ok());
    }
}

#[test]
fn stm_rejects_file_without_orders() {
    let image = stm_file(21, 0x60, 0, &[], 0);
    assert_eq!(STMModule::load(&image[..0x48F]).err(), Some(LoadError::Truncated));
}

#[test]
fn stm_rejects_pattern_cut_off() {
    let image = stm_file(21, 0x60, 2, &[], 0);
    assert_eq!(STMModule::load(&image[..image.len() - 1]).err(), Some(LoadError::Truncated));
}

#[test]
fn stm_header_fields() {
    let m = STMModule::load(&stm_file(21, 0x60, 1, &[], 0)).unwrap();
    assert_eq!(&m.song_name[..8], b"STM tune");
    assert_eq!(&m.tracker_name, b"!Scream!");
    assert_eq!(m.dos_eof, 0x1A);
    assert_eq!(m.file_type, 2);
    assert_eq!(m.version_major, 2);
    assert_eq!(m.version_minor, 21);
    assert_eq!(m.initial_tempo, 0x60);
    assert_eq!(m.pattern_amount, 1);
    assert_eq!(m.global_volume, 64);
    assert_eq!(m.samples.len(), 31);
    assert_eq!(m.patterns.len(), 1);
}

#[test]
fn stm_orders_drop_what_names_no_pattern() {
    let m = STMModule::load(&stm_file(21, 0x60, 0, &[], 0)).unwrap();
    assert_eq!(m.orders, vec![0, 62, 1, 255]);
    assert_eq!(m.module().playlist, vec![0, 62, 1, 255]);
}

#[test]
fn stm_legacy_tempo() {
    let m = STMModule::load(&stm_file(20, 0x60, 0, &[], 0)).unwrap();
    assert_eq!(m.initial_tempo, 0x96);
    let canonical = m.module();
    assert_eq!(canonical.initial_tempo, 0x96);
    assert_eq!(canonical.initial_speed, 9);
}

#[test]
fn stm_modern_tempo_is_kept() {
    let m = STMModule::load(&stm_file(21, 0x60, 0, &[], 0)).unwrap();
    assert_eq!(m.initial_tempo, 0x60);
    assert_eq!(m.module().initial_speed, 6);
}

#[test]
fn stm_zero_tempo_is_replaced() {
    let m = STMModule::load(&stm_file(21, 0, 0, &[], 0)).unwrap();
    assert_eq!(m.initial_tempo, 0x60);
    let m = STMModule::load(&stm_file(10, 0, 0, &[], 0)).unwrap();
    assert_eq!(m.initial_tempo, 0x60);
}

#[test]
fn stm_early_tempo_translation() {
    assert_eq!(translate_early_tempo(0), 0);
    assert_eq!(translate_early_tempo(9), 0x09);
    assert_eq!(translate_early_tempo(60), 0x60);
    assert_eq!(translate_early_tempo(96), 0x96);
    assert_eq!(translate_early_tempo(159), 0xF9);
    // From 160 on the tens no longer fit the high digit, which wraps.
    assert_eq!(translate_early_tempo(160), 0x00);
    assert_eq!(translate_early_tempo(255), 0x95);
}

#[test]
fn stm_tempo_conversion() {
    assert!(stm_tempo_in_range(0x60));
    assert_eq!(calculate_stm_tempo(0x60), 125);
    assert_eq!(calculate_stm_tempo(0x96), 123);
    assert_eq!(calculate_stm_tempo(0x3F), 90);
    assert_eq!(calculate_stm_tempo(0x2A), 88);
    assert_eq!(calculate_stm_tempo(0xFF), 125);
    assert!(stm_tempo_in_range(0x3F));
    assert!(stm_tempo_in_range(0x01));
    assert!(!stm_tempo_in_range(0x02));
    assert!(stm_tempo_in_range(0x15));
    assert!(!stm_tempo_in_range(0x16));
    assert!(stm_tempo_in_range(0x2A));
    assert!(!stm_tempo_in_range(0x2B));
}

#[test]
fn stm_sample_with_data() {
    let mut image = stm_file(21, 0x60, 0, &[], 0);
    stm_add_sample(&mut image, 0, 0x50, 4, 1, 3, 64, &[1, 0x7F, 0x80, 0xFF]);
    let m = STMModule::load(&image).unwrap();
    assert_eq!(&m.samples[0].filename[..6], b"sample");
    assert_eq!(m.samples[0].memseg, 0x50);
    assert_eq!(m.samples[0].length, 4);
    assert_eq!(m.samples[0].loop_begin, 1);
    assert_eq!(m.samples[0].loop_end, 3);
    assert_eq!(m.samples[0].volume, 64);
    assert_eq!(m.samples[0].c4speed, 8448);
    assert_eq!(m.samples[0].audio, vec![256, 32512, -32768, -256]);
    assert!(m.samples[1].audio.is_empty());
}

#[test]
fn stm_sample_of_volume_zero_has_no_audio() {
    let mut image = stm_file(21, 0x60, 0, &[], 0);
    stm_add_sample(&mut image, 3, 0x50, 4, 0, 0xFFFF, 0, &[1, 2, 3, 4]);
    let m = STMModule::load(&image).unwrap();
    assert_eq!(m.samples[3].length, 4);
    assert!(m.samples[3].audio.is_empty());
}

#[test]
fn stm_sample_data_past_end_of_file_is_silence() {
    let mut image = stm_file(21, 0x60, 0, &[], 0);
    stm_add_sample(&mut image, 0, 0x50, 6, 0, 0xFFFF, 64, &[1, 2]);
    let m = STMModule::load(&image).unwrap();
    assert_eq!(m.samples[0].audio, vec![256, 512, 0, 0, 0, 0]);
}

#[test]
fn stm_cells() {
    let cells = [
        0xFB, // empty
        0xFD, // note off
        0xFC, // passed over
        0x24, (5 << 3) | 3, 0x4A, 0x12, // note, instrument 5, volume 3 + 32, effect 10
    ];
    let m = STMModule::load(&stm_file(21, 0x60, 1, &cells, 4)).unwrap();
    let row = &m.patterns[0][0];
    assert_eq!(row[0], stm_untouched_column());
    assert_eq!(row[1], STMColumn { note: 254, ..stm_untouched_column() });
    assert_eq!(row[2], stm_untouched_column());
    assert_eq!(
        row[3],
        STMColumn { note: 0x24, instrument: 5, vol: 35, effect: 10, effect_value: 0x12 }
    );
    assert_eq!(m.patterns[0][1][0], stm_untouched_column());
    assert_eq!(m.patterns[0][63][3], stm_untouched_column());
}

#[test]
fn stm_empty_cells_stay_empty_in_canonical_form() {
    let m = STMModule::load(&stm_file(21, 0x60, 1, &[0xFB, 0xFC, 0xFD], 3)).unwrap().module();
    let empty = Column {
        note: Note::Empty,
        instrument: 0,
        vol: VolEffect::Empty,
        effect: Effect::Empty,
    };
    assert_eq!(m.patterns[0][0][0], empty);
    assert_eq!(m.patterns[0][0][1], empty);
    assert_eq!(m.patterns[0][0][2], Column { note: Note::Cut, ..empty });
    assert_eq!(m.patterns[0][0][3], empty);
}

#[test]
fn stm_cells_fill_rows_of_four() {
    let mut cells = Vec::new();
    for k in 0..8u8 {
        cells.extend_from_slice(&[k, 0, 0, 0]);
    }
    let m = STMModule::load(&stm_file(21, 0x60, 1, &cells, 8)).unwrap();
    for k in 0..8 {
        assert_eq!(m.patterns[0][k / 4][k % 4].note, k as u8);
    }
}

#[test]
fn stm_patterns_follow_each_other() {
    let mut image = stm_file(21, 0x60, 2, &[0x10, 0, 0, 0], 1);
    let second = image.len() - 256;
    image[second] = 0xFD;
    let m = STMModule::load(&image).unwrap();
    assert_eq!(m.patterns.len(), 2);
    assert_eq!(m.patterns[0][0][0].note, 0x10);
    assert_eq!(m.patterns[1][0][0].note, 254);
}

#[test]
fn stm_speed_argument_of_early_files_is_translated() {
    let cells = [0x24, 0, 0x01, 60, 0x24, 0, 0x02, 60];
    let early = STMModule::load(&stm_file(20, 0x60, 1, &cells, 2)).unwrap();
    assert_eq!(early.patterns[0][0][0].effect_value, 0x60);
    assert_eq!(early.patterns[0][0][1].effect_value, 60);
    let modern = STMModule::load(&stm_file(21, 0x60, 1, &cells, 2)).unwrap();
    assert_eq!(modern.patterns[0][0][0].effect_value, 60);
}

fn stm_cell(note: u8, vol: u8, effect: u8, effect_value: u8) -> Column {
    let mut module = STMModule::default();
    let mut pattern = [[stm_untouched_column(); 4]; 64];
    pattern[0][0] = STMColumn { note, instrument: 3, vol, effect, effect_value };
    module.patterns.push(pattern);
    module.patterns()[0][0][0]
}

#[test]
fn stm_cell_meanings() {
    assert_eq!(stm_cell(255, 255, 0, 0).note, Note::Empty);
    assert_eq!(stm_cell(254, 255, 0, 0).note, Note::Cut);
    assert_eq!(stm_cell(0x00, 255, 0, 0).note, Note::On(36));
    assert_eq!(stm_cell(0x24, 255, 0, 0).note, Note::On(4 * 12 + 4 + 12));
    assert_eq!(stm_cell(0xFD, 255, 0, 0).note, Note::On(17 * 12 + 13 + 12));
    assert_eq!(stm_cell(255, 0, 0, 0).vol, VolEffect::Volume(0));
    assert_eq!(stm_cell(255, 64, 0, 0).vol, VolEffect::Volume(64));
    assert_eq!(stm_cell(255, 65, 0, 0).vol, VolEffect::Empty);
    assert_eq!(stm_cell(255, 255, 1, 0x60).effect, Effect::STMTempo(0x60));
    assert_eq!(stm_cell(255, 255, 1, 0).effect, Effect::STMTempo(0));
    assert_eq!(stm_cell(255, 255, 2, 0).effect, Effect::PosJump(0));
    assert_eq!(stm_cell(255, 255, 3, 7).effect, Effect::PatBreak(7));
    assert_eq!(stm_cell(255, 255, 4, 7).effect, Effect::VolSlide(7));
    assert_eq!(stm_cell(255, 255, 5, 7).effect, Effect::PortaDown(7));
    assert_eq!(stm_cell(255, 255, 6, 7).effect, Effect::PortaUp(7));
    assert_eq!(stm_cell(255, 255, 7, 7).effect, Effect::TonePorta(7));
    assert_eq!(stm_cell(255, 255, 8, 7).effect, Effect::Vibrato(7));
    assert_eq!(stm_cell(255, 255, 9, 7).effect, Effect::Tremor(7));
    assert_eq!(stm_cell(255, 255, 10, 7).effect, Effect::Arpeggio(7));
    for code in 4..=10 {
        assert_eq!(stm_cell(255, 255, code, 0).effect, Effect::Empty);
    }
    assert_eq!(stm_cell(255, 255, 11, 7).effect, Effect::Empty);
    assert_eq!(stm_cell(255, 255, 0, 7).effect, Effect::Empty);
    assert_eq!(stm_cell(255, 255, 0, 0).instrument, 3);
}

#[test]
fn stm_instrument_of_a_note_is_held_inside_the_samples() {
    // Five bits hold instruments up to 31, and there are 31 samples.
    let cells = [0x24, 31 << 3, 0, 0, 0xFD, 0xFC, 0xFC];
    let m = STMModule::load(&stm_file(21, 0x60, 1, &cells, 4)).unwrap();
    let row = &m.module().patterns[0][0];
    assert_eq!((row[0].note, row[0].instrument), (Note::On(64), 31));
    let mut bare = STMModule::default();
    let mut pattern = [[stm_untouched_column(); 4]; 64];
    pattern[0][0] = STMColumn { note: 0x24, instrument: 3, vol: 255, effect: 0, effect_value: 0 };
    pattern[0][1] = STMColumn { note: 255, instrument: 3, vol: 255, effect: 0, effect_value: 0 };
    bare.patterns.push(pattern);
    let row = &bare.patterns()[0][0];
    assert_eq!((row[0].note, row[0].instrument), (Note::On(64), 0));
    assert_eq!((row[1].note, row[1].instrument), (Note::Empty, 3));
}

#[test]
fn stm_rows_have_four_channels() {
    let m = STMModule::load(&stm_file(21, 0x60, 2, &[], 0)).unwrap();
    for pattern in m.patterns() {
        assert_eq!(pattern.len(), 64);
        for row in pattern {
            assert_eq!(row.len(), 4);
        }
    }
}

#[test]
fn stm_canonical_module() {
    let mut image = stm_file(21, 0x75, 1, &[], 0);
    stm_add_sample(&mut image, 0, 0x100, 4, 1, 3, 48, &[1, 2, 3, 4]);
    stm_add_sample(&mut image, 1, 0x101, 4, 0, 0xFFFF, 48, &[1, 2, 3, 4]);
    stm_add_sample(&mut image, 2, 0x102, 4, 2, 100, 48, &[1, 2, 3, 4]);
    let m = STMModule::load(&image).unwrap().module();
    assert_eq!(m.name, "STM tune");
    assert_eq!(m.mode, PlaybackMode::S3M(S3MOptions { gus: false }));
    assert!(!m.linear_freq_slides);
    assert!(!m.fast_volume_slides);
    assert_eq!(m.initial_tempo, 0x75);
    assert_eq!(m.initial_speed, 7);
    assert_eq!(m.initial_global_volume, 64);
    assert_eq!(m.mixing_volume, 48);
    assert_eq!(m.samples.len(), 31);
    assert_eq!(m.samples[0].base_frequency, 8448);
    assert_eq!(m.samples[0].default_volume, 48);
    assert_eq!(m.samples[0].global_volume, 64);
    assert_eq!(m.samples[0].loop_type, LoopType::Forward);
    assert_eq!((m.samples[0].loop_start, m.samples[0].loop_end), (1, 3));
    assert_eq!(m.samples[1].loop_type, LoopType::Off);
    assert_eq!(m.samples[2].loop_type, LoopType::Forward);
    assert_eq!((m.samples[2].loop_start, m.samples[2].loop_end), (2, 4));
    // A sample without audio cannot loop.
    assert_eq!(m.samples[5].loop_type, LoopType::Off);
    assert_eq!(*m.playlist.last().unwrap(), 255);
}
