//! The command line of the program.
use vstd::prelude::*;

verus! {

/// Options of the program.
#[derive(Debug)]
pub struct Cli {
    /// Select a MIDI input by case-insensitive substring.
    pub midi_port: Option<String>,
    /// Select an audio output by case-insensitive substring.
    pub audio_device: Option<String>,
    /// Run without opening an audio output.
    pub no_audio: bool,
    /// Generate synthetic notes; no MIDI controller required.
    pub demo: bool,
    /// Show nonfatal diagnostic details outside the interface.
    pub debug: bool,
    /// Run a noninteractive integration smoke test.
    pub smoke_test: bool,
    pub command: Option<Command>,
}

/// Subcommands of the program.
#[derive(Clone, Copy, Debug, PartialEq, Eq, Structural)]
pub enum Command {
    /// List MIDI and audio devices and default selections.
    Devices,
    /// Print decoded MIDI input events, for `duration` seconds or until interrupted.
    Monitor { duration: Option<u64> },
}

} // verus!
