//! Core of a bounded audio-plus-screenshot recording session.
//!
//! A session captures ambient audio through a chained capture/encode process
//! pair and, on stop, trims silence, probes the playback duration, and takes a
//! final window screenshot.  The orchestration decisions live here as a
//! verified state machine; the actual subprocess and file work is performed by
//! an unverified driver that feeds outcomes back as events.

pub mod duration;
pub mod naming;
pub mod probe;
pub mod process;
pub mod record;
pub mod trim;

use vstd::prelude::*;

verus! {

/// A file strictly smaller than this many bytes is treated as empty audio:
/// it is neither trimmed nor probed, and its duration is reported as zero.
pub const MIN_AUDIO_BYTES: u64 = 500;

} // verus!
