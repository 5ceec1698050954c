use modplay::engine::error::LoadError;
use modplay::engine::format::{detect, load_module, Format};
use modplay::engine::module::PlaybackMode;

fn it_image() -> Vec<u8> {
    let mut image = vec![0u8; 0xC0];
    image[0..4].copy_from_slice(b"IMPM");
    image[4..8].copy_from_slice(b"Tune");
    image[0x33] = 140;
    image
}

fn s3m_image() -> Vec<u8> {
    let mut image = vec![0u8; 0x80];
    image[0x2C..0x30].copy_from_slice(b"SCRM");
    image[0x32] = 130;
    image
}

fn stm_image() -> Vec<u8> {
    let mut image = vec![0u8; 0x490];
    image[0x14..0x1C].copy_from_slice(b"!Scream!");
    image[0x1D] = 2;
    image[0x1E] = 2;
    image[0x1F] = 21;
    image[0x20] = 0x50;
    image
}

#[test]
fn formats_are_told_apart_by_their_magic() {
    assert_eq!(detect(&it_image()), Some(Format::IT));
    assert_eq!(detect(&s3m_image()), Some(Format::S3M));
    assert_eq!(detect(&stm_image()), Some(Format::STM));
    assert_eq!(detect(&[]), None);
    assert_eq!(detect(b"IMP"), None);
    assert_eq!(detect(&[0xFFu8; 0x490]), None);
    let mut song = stm_image();
    song[0x1D] = 1;
    assert_eq!(detect(&song), None);
    // An Impulse Tracker magic wins over a Scream Tracker 3 one.
    let mut both = s3m_image();
    both[0..4].copy_from_slice(b"IMPM");
    assert_eq!(detect(&both), Some(Format::IT));
}

#[test]
fn any_format_loads_into_a_canonical_module() {
    let it = load_module(&it_image()).unwrap();
    assert_eq!(it.name, "Tune");
    assert_eq!(it.mode, PlaybackMode::ITSample);
    assert_eq!(it.initial_tempo, 140);
    assert_eq!(it.playlist, vec![255]);
    let s3m = load_module(&s3m_image()).unwrap();
    assert_eq!(s3m.initial_tempo, 130);
    assert_eq!(s3m.playlist, vec![255]);
    let stm = load_module(&stm_image()).unwrap();
    assert_eq!(stm.initial_tempo, 0x50);
    assert_eq!(stm.initial_speed, 5);
    assert_eq!(stm.samples.len(), 31);
    assert_eq!(stm.playlist, vec![0; 128].into_iter().chain([255]).collect::<Vec<u8>>());
}

#[test]
fn loading_reports_the_error_of_the_format_found() {
    assert_eq!(load_module(&[1, 2, 3]).err(), Some(LoadError::InvalidSignature));
    assert_eq!(load_module(b"IMPM").err(), Some(LoadError::Truncated));
    assert_eq!(load_module(&s3m_image()[..0x40]).err(), Some(LoadError::Truncated));
    assert_eq!(load_module(&stm_image()[..0x100]).err(), Some(LoadError::Truncated));
}
