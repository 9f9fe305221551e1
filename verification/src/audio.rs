//! Voice allocation of the polyphonic synthesizer and the audio device list.
use vstd::prelude::*;

verus! {

/// The number of voices the synthesizer plays at once.
pub const MAX_VOICES: usize = 32;

/// What the voice bookkeeping reads of a voice: whether it sounds, the serial number of the
/// note that started it, that note, and whether its key is still down.
#[derive(Clone, Copy, Debug, PartialEq, Eq, Structural)]
pub struct VoiceSlot {
    pub active: bool,
    pub started: u64,
    pub note: u8,
    pub key_down: bool,
}

/// Voice `i` is the first silent one.
pub open spec fn first_free(slots: Seq<VoiceSlot>, i: int) -> bool {
    &&& 0 <= i < slots.len()
    &&& !slots[i].active
    &&& forall|j: int| 0 <= j < i ==> #[trigger] slots[j].active
}

/// Voice `i` was started earliest, and no voice before it was started as early.
pub open spec fn first_oldest(slots: Seq<VoiceSlot>, i: int) -> bool {
    &&& 0 <= i < slots.len()
    &&& forall|j: int| 0 <= j < slots.len() ==> slots[i].started <= #[trigger] slots[j].started
    &&& forall|j: int| 0 <= j < i ==> slots[i].started < #[trigger] slots[j].started
}

/// The voice a new note takes: the first silent voice; when all sound, the one started
/// earliest (the first of them on a tie).
pub open spec fn voice_choice(slots: Seq<VoiceSlot>) -> int {
    if exists|i: int| 0 <= i < slots.len() && !#[trigger] slots[i].active {
        choose|i: int| first_free(slots, i)
    } else {
        choose|i: int| first_oldest(slots, i)
    }
}

/// Chooses the voice for a new note: a free voice if there is one, else the oldest.
pub fn allocate_voice(slots: &[VoiceSlot]) -> (r: usize)
    requires
        slots@.len() > 0,
    ensures
        r == voice_choice(slots@),
        r < slots@.len(),
{
    let n = slots.len();
    let mut i: usize = 0;
    while i < n
        invariant
            n == slots@.len(),
            i <= n,
            forall|j: int| 0 <= j < i ==> #[trigger] slots@[j].active,
        decreases n - i,
    {
        if !slots[i].active {
            assert(first_free(slots@, i as int));
            let ghost c = choose|k: int| first_free(slots@, k);
            assert(c == i) by {
                if c < i {
                    assert(slots@[c].active);
                } else if c > i {
                    assert(slots@[i as int].active);
                }
            }
            return i;
        }
        i += 1;
    }
    let mut best: usize = 0;
    let mut k: usize = 1;
    while k < n
        invariant
            n == slots@.len(),
            1 <= k <= n,
            best < k,
            forall|j: int| 0 <= j < k ==> slots@[best as int].started <= #[trigger] slots@[j].started,
            forall|j: int| 0 <= j < best ==> slots@[best as int].started < #[trigger] slots@[j].started,
        decreases n - k,
    {
        if slots[k].started < slots[best].started {
            best = k;
        }
        k += 1;
    }
    assert(first_oldest(slots@, best as int));
    let ghost c = choose|i: int| first_oldest(slots@, i);
    assert(c == best) by {
        if c < best {
            assert(slots@[best as int].started < slots@[c].started);
            assert(slots@[c].started <= slots@[best as int].started);
        } else if c > best {
            assert(slots@[c].started < slots@[best as int].started);
            assert(slots@[best as int].started <= slots@[c].started);
        }
    }
    best
}

/// The audio outputs of the system and the default one.
#[derive(Debug)]
pub struct AudioDeviceInventory {
    pub outputs: Vec<String>,
    pub default: Option<String>,
}

/// A command to the synthesizer that changes which voices sound.
#[derive(Clone, Copy, Debug, PartialEq, Eq, Structural)]
pub enum VoiceCommand {
    NoteOn { note: u8, velocity: u8 },
    NoteOff { note: u8 },
    Sustain(bool),
    AllNotesOff,
}

/// What a command does to the voices: the pedal afterwards, the voice a new note starts on,
/// and, per voice, whether its key is let go and whether its sound is released.
#[derive(Debug)]
pub struct VoicePlan {
    pub sustain: bool,
    pub start: Option<usize>,
    pub lift: Vec<bool>,
    pub release: Vec<bool>,
}

/// The command lets go of the key of voice `s`: a note off (or a note on of velocity zero)
/// for its sounding, still held note, or all notes off.
pub open spec fn lifted(s: VoiceSlot, c: VoiceCommand) -> bool {
    match c {
        VoiceCommand::NoteOn { note, velocity } => velocity == 0 && s.active && s.note == note && s.key_down,
        VoiceCommand::NoteOff { note } => s.active && s.note == note && s.key_down,
        VoiceCommand::Sustain(_) => false,
        VoiceCommand::AllNotesOff => true,
    }
}

/// The command releases the sound of voice `s`: a key let go while the pedal is up, every
/// sounding voice whose key is up when the pedal lifts, or every voice on all notes off.
pub open spec fn released(s: VoiceSlot, sustain: bool, c: VoiceCommand) -> bool {
    match c {
        VoiceCommand::NoteOn { .. } => lifted(s, c) && !sustain,
        VoiceCommand::NoteOff { .. } => lifted(s, c) && !sustain,
        VoiceCommand::Sustain(down) => sustain && !down && s.active && !s.key_down,
        VoiceCommand::AllNotesOff => true,
    }
}

/// The pedal after the command.
pub open spec fn sustain_after_command(sustain: bool, c: VoiceCommand) -> bool {
    match c {
        VoiceCommand::Sustain(down) => down,
        VoiceCommand::AllNotesOff => false,
        _ => sustain,
    }
}

/// Plans a command on the voices: a note on with a velocity starts on the voice that
/// `allocate_voice` chooses; a note off lets go of the voices holding that note and releases
/// them unless the pedal is down; lifting the pedal releases the sounding voices whose keys
/// are up; all notes off lets go of and releases every voice and lifts the pedal.
pub fn plan_voices(slots: &[VoiceSlot], sustain: bool, command: VoiceCommand) -> (r: VoicePlan)
    requires
        slots@.len() > 0,
    ensures
        r.sustain == sustain_after_command(sustain, command),
        r.start == (match command {
            VoiceCommand::NoteOn { velocity, .. } => if velocity > 0 {
                Some(voice_choice(slots@) as usize)
            } else {
                None::<usize>
            },
            _ => None::<usize>,
        }),
        r.lift@.len() == slots@.len(),
        r.release@.len() == slots@.len(),
        forall|i: int| 0 <= i < slots@.len() ==> #[trigger] r.lift@[i] == lifted(slots@[i], command),
        forall|i: int| 0 <= i < slots@.len() ==> #[trigger] r.release@[i] == released(slots@[i], sustain, command),
{
    let start = match command {
        VoiceCommand::NoteOn { velocity, .. } => if velocity > 0 {
            Some(allocate_voice(slots))
        } else {
            None
        },
        _ => None,
    };
    let new_sustain = match command {
        VoiceCommand::Sustain(down) => down,
        VoiceCommand::AllNotesOff => false,
        _ => sustain,
    };
    let mut lift: Vec<bool> = Vec::new();
    let mut release: Vec<bool> = Vec::new();
    let mut i: usize = 0;
    while i < slots.len()
        invariant
            i <= slots@.len(),
            lift@.len() == i,
            release@.len() == i,
            forall|j: int| 0 <= j < i ==> #[trigger] lift@[j] == lifted(slots@[j], command),
            forall|j: int| 0 <= j < i ==> #[trigger] release@[j] == released(slots@[j], sustain, command),
        decreases slots@.len() - i,
    {
        let s = slots[i];
        let held_note = match command {
            VoiceCommand::NoteOn { note, velocity } => velocity == 0 && s.active && s.note == note && s.key_down,
            VoiceCommand::NoteOff { note } => s.active && s.note == note && s.key_down,
            VoiceCommand::Sustain(_) => false,
            VoiceCommand::AllNotesOff => true,
        };
        let gone = match command {
            VoiceCommand::NoteOn { .. } => held_note && !sustain,
            VoiceCommand::NoteOff { .. } => held_note && !sustain,
            VoiceCommand::Sustain(down) => sustain && !down && s.active && !s.key_down,
            VoiceCommand::AllNotesOff => true,
        };
        lift.push(held_note);
        release.push(gone);
        i += 1;
    }
    VoicePlan { sustain: new_sustain, start, lift, release }
}

/// What letting go of a key does to a voice. With the pedal up, a note off releases exactly
/// the sounding voices that hold that note with the key down; with the pedal down it only
/// lets go of their keys and releases nothing. A note on of velocity zero does the same as
/// a note off, and neither touches a voice playing another note. Lifting the pedal releases
/// the sounding voices whose keys are up; putting it down, or keeping it up, releases none.
pub proof fn lemma_key_release(s: VoiceSlot, note: u8, sustain: bool)
    ensures
        released(s, false, VoiceCommand::NoteOff { note }) <==> (s.active && s.note == note && s.key_down),
        lifted(s, VoiceCommand::NoteOff { note }) <==> (s.active && s.note == note && s.key_down),
        !released(s, true, VoiceCommand::NoteOff { note }),
        released(s, sustain, VoiceCommand::NoteOff { note })
            == released(s, sustain, VoiceCommand::NoteOn { note, velocity: 0 }),
        lifted(s, VoiceCommand::NoteOff { note }) == lifted(s, VoiceCommand::NoteOn { note, velocity: 0 }),
        s.note != note ==> !lifted(s, VoiceCommand::NoteOff { note })
            && !released(s, sustain, VoiceCommand::NoteOff { note }),
        released(s, true, VoiceCommand::Sustain(false)) <==> (s.active && !s.key_down),
        !released(s, sustain, VoiceCommand::Sustain(true)),
        !released(s, false, VoiceCommand::Sustain(false)),
        forall|v: u8| v > 0 ==> !#[trigger] released(s, sustain, VoiceCommand::NoteOn { note, velocity: v })
            && !lifted(s, VoiceCommand::NoteOn { note, velocity: v }),
        released(s, sustain, VoiceCommand::AllNotesOff),
{
}

} // verus!
