//! A playback engine for tracker music modules.
//!
//! The engine decodes Scream Tracker 2 (STM), Scream Tracker 3 (S3M) and
//! Impulse Tracker (IT) files into one canonical form and renders that to a
//! mono stream of signed 32-bit frames. Decoding and playback are verified:
//! every function states what it returns, and no function panics.

pub mod engine;
