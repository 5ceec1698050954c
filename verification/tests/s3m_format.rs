use modplay::engine::error::{LoadError, Unsupported};
use modplay::engine::format_s3m::{S3MColumn, S3MModule, S3MSample};
use modplay::engine::module::{
    Column, Effect, LoopType, ModuleInterface, Note, PlaybackMode, S3MOptions, VolEffect,
};

fn s3m_put_u16(image: &mut Vec<u8>, at: usize, value: u16) {
    image[at] = (value & 0xFF) as u8;
    image[at + 1] = (value >> 8) as u8;
}

fn s3m_put_u32(image: &mut Vec<u8>, at: usize, value: u32) {
    for i in 0..4 {
        image[at + i] = ((value >> (8 * i)) & 0xFF) as u8;
    }
}

fn s3m_pad16(image: &mut Vec<u8>) {
    while image.len() % 16 != 0 {
        image.push(0);
    }
}

/// A sample header of 80 bytes; the data pointer is filled in by `s3m_file`.
fn s3m_sample_header(kind: u8, flags: u8, length: u32, loop_begin: u32, loop_end: u32) -> Vec<u8> {
    let mut h = vec![0u8; 0x50];
    h[0] = kind;
    s3m_put_u32(&mut h, 0x10, length);
    s3m_put_u32(&mut h, 0x14, loop_begin);
    s3m_put_u32(&mut h, 0x18, loop_end);
    h[0x1C] = 33;
    h[0x1F] = flags;
    s3m_put_u32(&mut h, 0x20, 8363);
    h[0x4C..0x50].copy_from_slice(b"SCRS");
    h
}

/// A whole file. `ffi` is 1 for signed and 2 for unsigned samples.
fn s3m_file(
    orders: &[u8],
    ffi: u16,
    samples: &[(Vec<u8>, Vec<u8>)],
    patterns: &[Option<Vec<u8>>],
) -> Vec<u8> {
    let mut image = vec![0u8; 0x60];
    image[0..9].copy_from_slice(b"S3M tune\0");
    image[0x1C] = 0x1A;
    image[0x1D] = 16;
    s3m_put_u16(&mut image, 0x20, orders.len() as u16);
    s3m_put_u16(&mut image, 0x22, samples.len() as u16);
    s3m_put_u16(&mut image, 0x24, patterns.len() as u16);
    s3m_put_u16(&mut image, 0x28, 0x1320);
    s3m_put_u16(&mut image, 0x2A, ffi);
    image[0x2C..0x30].copy_from_slice(b"SCRM");
    image[0x30] = 64;
    image[0x31] = 6;
    image[0x32] = 125;
    image[0x33] = 0xB0;
    for ch in 0..32 {
        image[0x40 + ch] = if ch < 4 { ch as u8 } else { 255 };
    }
    image.extend_from_slice(orders);
    let tables = image.len();
    image.extend(vec![0u8; 2 * (samples.len() + patterns.len())]);
    image.extend(vec![0x20u8; 32]);
    let mut slot = tables;
    for (header, data) in samples {
        s3m_pad16(&mut image);
        let at = image.len();
        s3m_put_u16(&mut image, slot, (at / 16) as u16);
        slot += 2;
        image.extend_from_slice(header);
        s3m_pad16(&mut image);
        let data_at = image.len() / 16;
        image[at + 13] = (data_at >> 16) as u8;
        image[at + 14] = (data_at & 0xFF) as u8;
        image[at + 15] = ((data_at >> 8) & 0xFF) as u8;
        image.extend_from_slice(data);
    }
    for pattern in patterns {
        match pattern {
            None => {
                slot += 2;
            }
            Some(packed) => {
                s3m_pad16(&mut image);
                let at = image.len();
                s3m_put_u16(&mut image, slot, (at / 16) as u16);
                slot += 2;
                image.extend_from_slice(&[(packed.len() + 2) as u8, 0]);
                image.extend_from_slice(packed);
            }
        }
    }
    image
}

/// Packed data of one pattern: the given bytes, then the ends of the rows
/// that are left of the 64.
fn s3m_rows(first: &[u8], rows_in_first: usize) -> Vec<u8> {
    let mut packed = first.to_vec();
    packed.extend(vec![0u8; 64 - rows_in_first]);
    packed
}

fn s3m_empty_column() -> S3MColumn {
    S3MColumn { note: 255, instrument: 0, vol: 255, effect: 0, effect_value: 0 }
}

#[test]
fn s3m_rejects_empty_input() {
    assert_eq!(S3MModule::load(&[]).err(), Some(LoadError::Truncated));
}

#[test]
fn s3m_rejects_wrong_magic() {
    let mut image = s3m_file(&[255], 1, &[], &[]);
    image[0x2C] = b'X';
    assert_eq!(S3MModule::load(&image).err(), Some(LoadError::InvalidSignature));
}

#[test]
fn s3m_rejects_short_tables() {
    let mut image = s3m_file(&[255], 1, &[], &[]);
    s3m_put_u16(&mut image, 0x22, 400);
    assert_eq!(S3MModule::load(&image).err(), Some(LoadError::Truncated));
}

#[test]
fn s3m_rejects_adlib_instrument() {
    let image = s3m_file(&[255], 1, &[(s3m_sample_header(2, 0, 0, 0, 0), vec![])], &[]);
    assert_eq!(
        S3MModule::load(&image).err(),
        Some(LoadError::UnsupportedVariant(Unsupported::AdLib))
    );
}

#[test]
fn s3m_rejects_packed_sample() {
    let mut header = s3m_sample_header(1, 0, 2, 0, 0);
    header[0x1E] = 1;
    let image = s3m_file(&[255], 1, &[(header, vec![1, 2])], &[]);
    assert_eq!(
        S3MModule::load(&image).err(),
        Some(LoadError::UnsupportedVariant(Unsupported::CompressedSample))
    );
}

#[test]
fn s3m_rejects_sample_length_that_overflows() {
    let image =
        s3m_file(&[255], 1, &[(s3m_sample_header(1, 0b100, 0x8000_0000, 0, 0), vec![])], &[]);
    assert_eq!(S3MModule::load(&image).err(), Some(LoadError::OutOfRange));
}

#[test]
fn s3m_rejects_sample_header_cut_off() {
    let image = s3m_file(&[255], 1, &[(s3m_sample_header(1, 0, 0, 0, 0), vec![])], &[]);
    assert_eq!(S3MModule::load(&image[..image.len() - 8]).err(), Some(LoadError::Truncated));
}

#[test]
fn s3m_header_fields() {
    let image = s3m_file(&[0, 1, 255], 2, &[], &[]);
    let m = S3MModule::load(&image).unwrap();
    assert_eq!(&m.song_name[..8], b"S3M tune");
    assert_eq!(m.order_amount, 3);
    assert_eq!(m.sample_amount, 0);
    assert_eq!(m.pattern_amount, 0);
    assert_eq!(m.tracker_metadata, 0x1320);
    assert_eq!(m.ffi, 2);
    assert_eq!(m._scrm, 0x4D52_4353);
    assert_eq!(m.global_volume, 64);
    assert_eq!(m.initial_speed, 6);
    assert_eq!(m.initial_tempo, 125);
    assert_eq!(m.mixing_volume, 0xB0);
    assert_eq!(m.orders, vec![0, 1, 255]);
    assert_eq!(m.channel_settings[3], 3);
    assert_eq!(m.channel_settings[4], 255);
    assert_eq!(m.channel_panning, [0x20; 32]);
}

#[test]
fn s3m_pannings_past_end_of_file_are_zero() {
    let image = s3m_file(&[255], 1, &[], &[]);
    let m = S3MModule::load(&image[..image.len() - 30]).unwrap();
    assert_eq!(m.channel_panning[0], 0x20);
    assert_eq!(m.channel_panning[1], 0x20);
    assert_eq!(m.channel_panning[2], 0);
    assert_eq!(m.channel_panning[31], 0);
}

#[test]
fn s3m_sample_data_pointer_byte_order() {
    // Enough filler to push the data past 64 KiB, so that all three bytes
    // of the pointer count.
    let filler = (s3m_sample_header(1, 0, 0x1_2000, 0, 0), vec![0u8; 0x1_2000]);
    let image = s3m_file(
        &[255],
        2,
        &[filler, (s3m_sample_header(1, 0, 3, 0, 0), vec![0, 128, 255])],
        &[],
    );
    let m = S3MModule::load(&image).unwrap();
    assert_eq!(m.samples[1].audio, vec![-32768, 0, 32512]);
    assert_ne!(m.samples[1].memseg[2], 0);
}

#[test]
fn s3m_sample_signed_and_sixteen_bit() {
    let image = s3m_file(
        &[255],
        1,
        &[
            (s3m_sample_header(1, 0, 2, 0, 0), vec![0x7F, 0x80]),
            (s3m_sample_header(1, 0b100, 2, 0, 0), vec![0x34, 0x12, 0x00, 0x80]),
        ],
        &[],
    );
    let m = S3MModule::load(&image).unwrap();
    assert_eq!(m.samples[0].audio, vec![32512, -32768]);
    assert_eq!(m.samples[1].audio, vec![0x1234, -32768]);
}

#[test]
fn s3m_sample_sixteen_bit_unsigned() {
    let image = s3m_file(
        &[255],
        2,
        &[(s3m_sample_header(1, 0b100, 3, 0, 0), vec![0, 0, 0xFF, 0x7F, 0xFF, 0xFF])],
        &[],
    );
    let m = S3MModule::load(&image).unwrap();
    assert_eq!(m.samples[0].audio, vec![-32767, 0, 32767]);
}

#[test]
fn s3m_sample_offset_zero_is_silent() {
    let mut image = s3m_file(&[255], 1, &[(s3m_sample_header(1, 0, 2, 0, 0), vec![1, 2])], &[]);
    s3m_put_u16(&mut image, 0x61, 0);
    let m = S3MModule::load(&image).unwrap();
    assert_eq!(m.samples[0].length, 0);
    assert!(m.samples[0].audio.is_empty());
}

#[test]
fn s3m_pattern_unpacks_cells() {
    let packed = s3m_rows(
        &[
            // row 0: channel 2: note and instrument, volume, effect
            0xE2, 0x34, 1, 40, 4, 0x0F, // channel 0: volume only
            0x40, 33, 0x00, // row 1: channel 2 again: effect only
            0x82, 1, 3, 0x00,
        ],
        2,
    );
    let image = s3m_file(&[0, 255], 1, &[], &[Some(packed)]);
    let m = S3MModule::load(&image).unwrap();
    assert_eq!(
        m.patterns[0][0][2],
        S3MColumn { note: 0x34, instrument: 1, vol: 40, effect: 4, effect_value: 0x0F }
    );
    assert_eq!(m.patterns[0][0][0], S3MColumn { vol: 33, ..s3m_empty_column() });
    assert_eq!(m.patterns[0][0][1], s3m_empty_column());
    assert_eq!(
        m.patterns[0][1][2],
        S3MColumn { effect: 1, effect_value: 3, ..s3m_empty_column() }
    );
    assert_eq!(m.patterns[0][63][0], s3m_empty_column());
}

#[test]
fn s3m_pattern_offset_zero_is_empty() {
    let image = s3m_file(&[0, 255], 1, &[], &[None]);
    let m = S3MModule::load(&image).unwrap();
    assert_eq!(m.patterns.len(), 1);
    assert!(m.patterns[0].iter().all(|row| row.iter().all(|c| *c == s3m_empty_column())));
}

#[test]
fn s3m_rejects_pattern_cut_off() {
    let image = s3m_file(&[0, 255], 1, &[], &[Some(vec![0xE2, 0x34, 1, 40, 4, 0x0F, 0, 0])]);
    assert_eq!(S3MModule::load(&image).err(), Some(LoadError::Truncated));
}

#[test]
fn s3m_note_encoding() {
    let packed = s3m_rows(&[0x20, 0x34, 1, 0x00], 1);
    let image = s3m_file(
        &[0, 255],
        1,
        &[(s3m_sample_header(1, 0, 1, 0, 0), vec![1])],
        &[Some(packed)],
    );
    let m = S3MModule::load(&image).unwrap().module();
    assert_eq!(m.patterns[0][0][0].note, Note::On(52));
    assert_eq!(m.patterns[0][0][0].instrument, 1);
}

#[test]
fn s3m_instrument_of_a_note_is_held_inside_the_samples() {
    let packed = s3m_rows(&[0x20, 0x34, 7, 0x21, 255, 7, 0x00], 1);
    let image = s3m_file(
        &[0, 255],
        1,
        &[
            (s3m_sample_header(1, 0, 1, 0, 0), vec![1]),
            (s3m_sample_header(1, 0, 1, 0, 0), vec![1]),
        ],
        &[Some(packed)],
    );
    let m = S3MModule::load(&image).unwrap();
    assert_eq!(m.patterns[0][0][0].instrument, 7);
    let row = &m.module().patterns[0][0];
    assert_eq!((row[0].note, row[0].instrument), (Note::On(52), 2));
    assert_eq!((row[1].note, row[1].instrument), (Note::Empty, 7));
}

fn s3m_cell(note: u8, vol: u8, effect: u8, effect_value: u8) -> Column {
    let mut module = S3MModule::default();
    let mut pattern = [[s3m_empty_column(); 32]; 64];
    pattern[0][0] = S3MColumn { note, instrument: 9, vol, effect, effect_value };
    module.patterns.push(pattern);
    module.patterns()[0][0][0]
}

#[test]
fn s3m_cell_meanings() {
    assert_eq!(s3m_cell(255, 255, 0, 0).note, Note::Empty);
    assert_eq!(s3m_cell(254, 255, 0, 0).note, Note::Cut);
    assert_eq!(s3m_cell(0x00, 255, 0, 0).note, Note::On(12));
    assert_eq!(s3m_cell(0x7B, 255, 0, 0).note, Note::On(7 * 12 + 11 + 12));
    assert_eq!(s3m_cell(0xFD, 255, 0, 0).note, Note::On(15 * 12 + 13 + 12));
    assert_eq!(s3m_cell(255, 64, 0, 0).vol, VolEffect::Volume(64));
    assert_eq!(s3m_cell(255, 65, 0, 0).vol, VolEffect::Empty);
    assert_eq!(s3m_cell(255, 128, 0, 0).vol, VolEffect::SetPan(0));
    assert_eq!(s3m_cell(255, 192, 0, 0).vol, VolEffect::SetPan(64));
    assert_eq!(s3m_cell(255, 193, 0, 0).vol, VolEffect::Empty);
    assert_eq!(s3m_cell(255, 255, 1, 6).effect, Effect::SetSpeed(6));
    assert_eq!(s3m_cell(255, 255, 4, 0x0F).effect, Effect::VolSlide(0x0F));
    assert_eq!(s3m_cell(255, 255, 17, 0x23).effect, Effect::Retrig(0x23));
    // The past-note commands do not exist in this format.
    assert_eq!(s3m_cell(255, 255, 19, 0x73).effect, Effect::Empty);
    assert_eq!(s3m_cell(255, 255, 19, 0xB0).effect, Effect::PatLoopStart);
    assert_eq!(s3m_cell(255, 255, 20, 0x80).effect, Effect::SetTempo(0x80));
    assert_eq!(s3m_cell(255, 255, 20, 0x12).effect, Effect::IncTempo(2));
    assert_eq!(s3m_cell(255, 255, 27, 1).effect, Effect::Empty);
    assert_eq!(s3m_cell(255, 255, 0, 0).instrument, 9);
}

#[test]
fn s3m_rows_have_32_cells_and_disabled_channels_are_empty() {
    let packed = s3m_rows(&[0x20, 0x34, 1, 0x25, 0x35, 2, 0x23, 0x36, 3, 0x21, 0x37, 1, 0x00], 1);
    let one = || (s3m_sample_header(1, 0, 1, 0, 0), vec![1u8]);
    let mut image = s3m_file(&[0, 255], 1, &[one(), one(), one()], &[Some(packed)]);
    // Channels 0 to 3 are enabled; channel 1 is then muted and channel 5
    // given to AdLib.
    image[0x41] = 0x81;
    image[0x45] = 16;
    let m = S3MModule::load(&image).unwrap();
    assert_eq!(m.patterns[0][0][1].note, 0x37);
    assert_eq!(m.patterns[0][0][5].note, 0x35);
    let patterns = m.patterns();
    assert_eq!(patterns.len(), 1);
    assert_eq!(patterns[0].len(), 64);
    for row in &patterns[0] {
        assert_eq!(row.len(), 32);
    }
    let empty = Column {
        note: Note::Empty,
        instrument: 0,
        vol: VolEffect::Empty,
        effect: Effect::Empty,
    };
    let row = &patterns[0][0];
    assert_eq!((row[0].note, row[0].instrument), (Note::On(52), 1));
    assert_eq!(row[1], empty);
    assert_eq!(row[2], empty);
    assert_eq!((row[3].note, row[3].instrument), (Note::On(54), 3));
    assert_eq!(row[5], empty);
    assert_eq!(row[31], empty);
    assert!(patterns[0][1].iter().all(|c| *c == empty));
}

#[test]
fn s3m_all_channels_enabled_gives_32_columns() {
    let mut module = S3MModule::default();
    for ch in 0..32 {
        module.channel_settings[ch] = (ch % 16) as u8;
    }
    module.patterns.push([[s3m_empty_column(); 32]; 64]);
    let patterns = module.patterns();
    assert!(patterns[0].iter().all(|row| row.len() == 32));
}

#[test]
fn s3m_canonical_module() {
    let image = s3m_file(
        &[0, 1],
        1,
        &[
            (s3m_sample_header(1, 1, 4, 1, 3), vec![1, 2, 3, 4]),
            (s3m_sample_header(1, 1, 4, 2, 9), vec![1, 2, 3, 4]),
            (s3m_sample_header(1, 0, 4, 1, 3), vec![1, 2, 3, 4]),
        ],
        &[None],
    );
    let m = S3MModule::load(&image).unwrap().module();
    assert_eq!(m.name, "S3M tune");
    assert!(!m.linear_freq_slides);
    assert!(!m.fast_volume_slides);
    assert_eq!(m.initial_tempo, 125);
    assert_eq!(m.initial_speed, 6);
    assert_eq!(m.initial_global_volume, 64);
    assert_eq!(m.playlist, vec![0, 1, 255]);
    assert_eq!(m.samples[0].base_frequency, 8363);
    assert_eq!(m.samples[0].default_volume, 33);
    assert_eq!(m.samples[0].global_volume, 64);
    assert_eq!(m.samples[0].loop_type, LoopType::Forward);
    assert_eq!((m.samples[0].loop_start, m.samples[0].loop_end), (1, 3));
    assert_eq!(m.samples[1].loop_type, LoopType::Forward);
    assert_eq!((m.samples[1].loop_start, m.samples[1].loop_end), (2, 4));
    assert_eq!(m.samples[2].loop_type, LoopType::Off);
    assert_eq!(m.samples[0].audio, vec![256, 512, 768, 1024]);
}

fn s3m_with_gravis(parameters: &[u16], tracker: u16) -> S3MModule {
    let mut module = S3MModule::default();
    module.tracker_metadata = tracker;
    module.mixing_volume = 0xB0;
    for p in parameters {
        module.samples.push(S3MSample { sample_type: 1, int_gp: *p, ..S3MSample::default() });
    }
    module
}

#[test]
fn s3m_gravis_detection() {
    assert!(s3m_with_gravis(&[], 0x1320).is_gus());
    assert!(s3m_with_gravis(&[0, 0], 0x1320).is_gus());
    assert!(s3m_with_gravis(&[0, 0], 0x1300).is_gus());
    assert!(!s3m_with_gravis(&[0, 1], 0x1320).is_gus());
    assert!(!s3m_with_gravis(&[0x200, 0], 0x1320).is_gus());
    assert!(!s3m_with_gravis(&[0, 0], 0x3214).is_gus());
    assert!(s3m_with_gravis(&[0, 0], 0x4000).is_gus());
}

#[test]
fn s3m_gravis_parameter_of_an_adlib_instrument_does_not_count() {
    let mut module = s3m_with_gravis(&[0], 0x1320);
    module.samples.push(S3MSample { sample_type: 2, int_gp: 7, ..S3MSample::default() });
    assert!(module.is_gus());
}

#[test]
fn s3m_mixing_volume_follows_gravis_detection() {
    let gus = s3m_with_gravis(&[0], 0x1320).module();
    assert_eq!(gus.mode, PlaybackMode::S3M(S3MOptions { gus: true }));
    assert_eq!(gus.mixing_volume, 48);
    let other = s3m_with_gravis(&[1], 0x1320).module();
    assert_eq!(other.mode, PlaybackMode::S3M(S3MOptions { gus: false }));
    assert_eq!(other.mixing_volume, 0x30);
}

#[test]
fn s3m_fast_volume_slides() {
    let mut module = S3MModule::default();
    assert!(!module.module().fast_volume_slides);
    module.tracker_metadata = 0x1300;
    assert!(module.module().fast_volume_slides);
    module.tracker_metadata = 0x1320;
    module.flags = 0x40;
    assert!(module.module().fast_volume_slides);
}
