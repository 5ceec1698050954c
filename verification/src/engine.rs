//! Tracker-module playback engine: format decoders, the canonical module
//! model, and the sequencer that renders a module to mono PCM.

pub mod bytes;
pub mod channel;
pub mod error;
pub mod format;
pub mod format_it;
pub mod format_s3m;
pub mod format_stm;
pub mod lut;
pub mod message;
pub mod module;
pub mod pcm;
pub mod pitch;
pub mod player;
pub mod resample;
pub mod stm_tools;
pub mod volume;
