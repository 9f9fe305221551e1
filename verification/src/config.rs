//! Configuration values shared with the settings file.
use vstd::prelude::*;

use crate::trainer::normalized;

verus! {

/// The version of the configuration format.
pub const CONFIG_VERSION: u32 = 1;

/// The colour theme of the interface.
#[derive(Clone, Copy, Debug, PartialEq, Eq, Structural)]
pub enum Theme {
    Cyberpunk,
}

/// The slowest tempo a configuration may hold, in beats per minute.
pub const MIN_CONFIG_BPM: u16 = 30;
/// The fastest tempo a configuration may hold, in beats per minute.
pub const MAX_CONFIG_BPM: u16 = 300;

/// A tempo brought within `30..=300` BPM.
pub open spec fn clamped_bpm(bpm: u16) -> u16 {
    if bpm < MIN_CONFIG_BPM { MIN_CONFIG_BPM } else if bpm > MAX_CONFIG_BPM { MAX_CONFIG_BPM } else { bpm }
}

/// A configured tempo brought within `30..=300` BPM.
pub fn sanitized_bpm(bpm: u16) -> (r: u16)
    ensures
        r == clamped_bpm(bpm),
{
    if bpm < MIN_CONFIG_BPM {
        MIN_CONFIG_BPM
    } else if bpm > MAX_CONFIG_BPM {
        MAX_CONFIG_BPM
    } else {
        bpm
    }
}

/// The device preference saved after a session: the one chosen on the command line, if
/// any, else the one saved before.
pub fn remembered_device(saved: Option<String>, chosen: Option<String>) -> (r: Option<String>)
    ensures
        r == (if chosen is Some { chosen } else { saved }),
{
    match chosen {
        Some(device) => Some(device),
        None => saved,
    }
}

/// Sanitizing a configuration's tempo and training range is idempotent, and leaves a tempo
/// within `30..=300` BPM and an ordered training range within the MIDI notes as they are:
/// a configuration that was saved sanitized loads back unchanged.
pub proof fn lemma_sanitizing_keeps_sane_settings(bpm: u16, range: (u8, u8))
    ensures
        clamped_bpm(clamped_bpm(bpm)) == clamped_bpm(bpm),
        normalized(normalized(range)) == normalized(range),
        MIN_CONFIG_BPM <= bpm <= MAX_CONFIG_BPM ==> clamped_bpm(bpm) == bpm,
        range.0 <= range.1 <= 127 ==> normalized(range) == range,
{
}

} // verus!
