//! Telling the formats apart, and decoding whichever one a file is in.

use super::error::LoadError;
use super::format_it::{it_error, it_magic, ITModule};
use super::format_s3m::{s3m_error, s3m_magic, S3MModule};
use super::format_stm::{
    stm_error, stm_tracker_name_ascii, tracker_name_ascii, STMModule, STM_HEADER_LEN,
    STM_TYPE_MODULE,
};
use super::module::{Module, ModuleInterface};
use vstd::prelude::*;

verus! {

/// A module format that can be decoded.
#[derive(Debug, Clone, Copy, PartialEq, Eq, Structural)]
pub enum Format {
    /// Impulse Tracker.
    IT,
    /// Scream Tracker 3.
    S3M,
    /// Scream Tracker 2.
    STM,
}

/// The format that the magic bytes of `b` name: "IMPM" at the start for
/// Impulse Tracker; "SCRM" at byte 44 for Scream Tracker 3; an ASCII
/// tracker name with file type 2 for Scream Tracker 2.
pub open spec fn detected(b: Seq<u8>) -> Option<Format> {
    if b.len() >= 4 && it_magic(b) {
        Some(Format::IT)
    } else if b.len() >= 0x30 && s3m_magic(b) {
        Some(Format::S3M)
    } else if b.len() >= STM_HEADER_LEN && stm_tracker_name_ascii(b) && b[0x1D]
        == STM_TYPE_MODULE {
        Some(Format::STM)
    } else {
        None
    }
}

/// Tells which format a file is in.
pub fn detect(bytes: &[u8]) -> (r: Option<Format>)
    ensures
        r == detected(bytes@),
{
    let len = bytes.len();
    if len >= 4 && bytes[0] == 0x49 && bytes[1] == 0x4D && bytes[2] == 0x50 && bytes[3] == 0x4D {
        Some(Format::IT)
    } else if len >= 0x30 && bytes[0x2C] == 0x53 && bytes[0x2D] == 0x43 && bytes[0x2E] == 0x52
        && bytes[0x2F] == 0x4D {
        Some(Format::S3M)
    } else if len >= STM_HEADER_LEN && tracker_name_ascii(bytes) && bytes[0x1D]
        == STM_TYPE_MODULE {
        Some(Format::STM)
    } else {
        None
    }
}

/// Why `b` is not a decodable module of any format, if it is not.
pub open spec fn load_error(b: Seq<u8>) -> Option<LoadError> {
    match detected(b) {
        None => Some(LoadError::InvalidSignature),
        Some(Format::IT) => it_error(b),
        Some(Format::S3M) => s3m_error(b),
        Some(Format::STM) => stm_error(b),
    }
}

/// Whether `m` is the canonical form of the module stored in `b`.
pub open spec fn loaded(b: Seq<u8>, m: Module) -> bool {
    match detected(b) {
        None => false,
        Some(Format::IT) => exists|raw: ITModule| raw.decoded_from(b) && raw.canonical(m),
        Some(Format::S3M) => exists|raw: S3MModule| raw.decoded_from(b) && raw.canonical(m),
        Some(Format::STM) => exists|raw: STMModule| raw.decoded_from(b) && raw.canonical(m),
    }
}

/// Decodes a module of any of the three formats into canonical form.
pub fn load_module(bytes: &[u8]) -> (r: Result<Module, LoadError>)
    ensures
        match r {
            Ok(m) => load_error(bytes@) is None && loaded(bytes@, m) && m.wf(),
            Err(e) => load_error(bytes@) == Some(e),
        },
{
    match detect(bytes) {
        None => Err(LoadError::InvalidSignature),
        Some(Format::IT) => match ITModule::load(bytes) {
            Ok(raw) => Ok(raw.module()),
            Err(e) => Err(e),
        },
        Some(Format::S3M) => match S3MModule::load(bytes) {
            Ok(raw) => Ok(raw.module()),
            Err(e) => Err(e),
        },
        Some(Format::STM) => match STMModule::load(bytes) {
            Ok(raw) => Ok(raw.module()),
            Err(e) => Err(e),
        },
    }
}

} // verus!
