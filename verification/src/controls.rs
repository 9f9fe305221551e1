//! The mapping of the controller's knobs to what they adjust.
use vstd::prelude::*;

verus! {

/// A parameter of the electric-piano patch.
#[derive(Clone, Copy, Debug, PartialEq, Eq, Structural)]
pub enum SynthParameter {
    Attack,
    Decay,
    Sustain,
    Release,
    Brightness,
    Harmonics,
}

/// What a knob adjusts.
#[derive(Clone, Copy, Debug, PartialEq, Eq, Structural)]
pub enum Knob {
    Volume,
    Synth(SynthParameter),
    Tempo,
}

/// The knob of each of the eight default controller numbers.
pub open spec fn knob_of(controller: u8) -> Option<Knob> {
    if controller == 1 { Some(Knob::Volume) }
    else if controller == 2 { Some(Knob::Synth(SynthParameter::Attack)) }
    else if controller == 3 { Some(Knob::Synth(SynthParameter::Decay)) }
    else if controller == 4 { Some(Knob::Synth(SynthParameter::Sustain)) }
    else if controller == 5 { Some(Knob::Synth(SynthParameter::Release)) }
    else if controller == 6 { Some(Knob::Synth(SynthParameter::Brightness)) }
    else if controller == 7 { Some(Knob::Synth(SynthParameter::Harmonics)) }
    else if controller == 8 { Some(Knob::Tempo) }
    else { None }
}

/// What controller number `controller` adjusts: volume on 1, the patch on 2 to 7 (attack,
/// decay, sustain, release, brightness, harmonics), the tempo on 8; other controllers,
/// the sustain pedal among them, are left to other handlers.
pub fn knob_for(controller: u8) -> (r: Option<Knob>)
    ensures
        r == knob_of(controller),
{
    match controller {
        1 => Some(Knob::Volume),
        2 => Some(Knob::Synth(SynthParameter::Attack)),
        3 => Some(Knob::Synth(SynthParameter::Decay)),
        4 => Some(Knob::Synth(SynthParameter::Sustain)),
        5 => Some(Knob::Synth(SynthParameter::Release)),
        6 => Some(Knob::Synth(SynthParameter::Brightness)),
        7 => Some(Knob::Synth(SynthParameter::Harmonics)),
        8 => Some(Knob::Tempo),
        _ => None,
    }
}

/// The tempo a knob value selects: 40 BPM at 0 to 240 BPM at 127, rounded to the nearest BPM.
pub open spec fn knob_tempo(value: u8) -> u16 {
    let v = if value <= 127 { value as int } else { 127 };
    ((5080 + 200 * v + 63) / 127) as u16
}

/// The tempo a knob value selects, 40 to 240 BPM; values above 127 count as 127.
pub fn tempo_from_knob(value: u8) -> (r: u16)
    ensures
        r == knob_tempo(value),
        40 <= r <= 240,
{
    let v: u32 = if value <= 127 { value as u32 } else { 127 };
    ((5080 + 200 * v + 63) / 127) as u16
}

} // verus!
