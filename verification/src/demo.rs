//! The synthetic performer of demo mode: it plays a melody one note at a time, so that the
//! tutor can be tried without a MIDI controller.
use vstd::prelude::*;

use crate::midi::{MidiEvent, MidiMessage};
use crate::music::MidiNote;

verus! {

/// The time between two demo notes, in nanoseconds.
pub const DEMO_STEP_NS: u64 = 430_000_000;

/// The velocity of the demo's note number `step`: from 65 up in steps of 17, modulo 60.
pub open spec fn demo_velocity(step: int) -> u8 {
    (65 + (step * 17) % 60) as u8
}

/// The events the demo emits at `now` for its step `step` after sounding `active`: the
/// release of the note still sounding, if any, then the next note of the melody, both on
/// the first channel.
pub open spec fn demo_events(active: Option<MidiNote>, step: int, melody: Seq<MidiNote>, now: u64) -> Seq<MidiEvent> {
    let on = MidiEvent {
        message: MidiMessage::NoteOn { channel: 0, note: melody[step % (melody.len() as int)], velocity: demo_velocity(step) },
        at: now,
    };
    match active {
        Some(note) => seq![MidiEvent { message: MidiMessage::NoteOff { channel: 0, note, velocity: 0 }, at: now }, on],
        None => seq![on],
    }
}

/// Where the demo is in its melody.
pub struct DemoState {
    /// When the next note is due.
    pub next: u64,
    /// How many notes have been played.
    pub step: usize,
    /// The note sounding now, if any.
    pub active: Option<MidiNote>,
}

impl DemoState {
    /// A demo whose first note is due at `now`.
    pub fn new(now: u64) -> (r: Self)
        ensures
            r.next == now,
            r.step == 0,
            r.active is None,
    {
        DemoState { next: now, step: 0, active: None }
    }

    /// The events due at `now`: none before the next note is due; otherwise the release of
    /// the sounding note and the next note of the melody (cycling through it), the note
    /// after that being due 430 ms later.
    pub fn events(&mut self, now: u64, melody: &[MidiNote]) -> (r: Vec<MidiEvent>)
        requires
            melody@.len() > 0,
            now <= u64::MAX - DEMO_STEP_NS,
            old(self).step < usize::MAX / 17,
        ensures
            now < old(self).next ==> r@.len() == 0 && *final(self) == *old(self),
            now >= old(self).next ==> {
                &&& r@ == demo_events(old(self).active, old(self).step as int, melody@, now)
                &&& final(self).next == now + DEMO_STEP_NS
                &&& final(self).step == old(self).step + 1
                &&& final(self).active == Some(melody@[old(self).step as int % melody@.len() as int])
            },
    {
        if now < self.next {
            return Vec::new();
        }
        self.next = now + DEMO_STEP_NS;
        let mut events: Vec<MidiEvent> = Vec::with_capacity(2);
        match self.active {
            Some(note) => {
                events.push(MidiEvent { message: MidiMessage::NoteOff { channel: 0, note, velocity: 0 }, at: now });
            },
            None => {},
        }
        self.active = None;
        let note = melody[self.step % melody.len()];
        let velocity: u8 = 65 + ((self.step * 17) % 60) as u8;
        events.push(MidiEvent { message: MidiMessage::NoteOn { channel: 0, note, velocity }, at: now });
        self.active = Some(note);
        self.step += 1;
        assert(events@ =~= demo_events(old(self).active, old(self).step as int, melody@, now));
        events
    }
}

} // verus!
