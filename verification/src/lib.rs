//! Verified core of a terminal MIDI instrument and piano tutor.
use vstd::prelude::*;

pub mod text;
pub mod music;
pub mod chord;
pub mod midi;
pub mod trainer;
pub mod controls;
pub mod audio;
pub mod config;
pub mod cli;
pub mod tutor;
pub mod stats;
pub mod session;
pub mod demo;
pub mod panels;

verus! {
} // verus!
