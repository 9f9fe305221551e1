//! Decoding of MIDI channel messages and choice of the MIDI input port.
use vstd::prelude::*;
use vstd::string::*;

use crate::music::{group_music, note_text, MidiNote};
use crate::text::{
    decimal, hex_byte, pad_left, push_decimal, push_hex_byte, push_padded, text_of,
};

verus! {

broadcast use group_music;

/// A decoded MIDI message.
#[derive(Clone, Copy, Debug, PartialEq, Eq, Structural)]
pub enum MidiMessage {
    NoteOn { channel: u8, note: MidiNote, velocity: u8 },
    NoteOff { channel: u8, note: MidiNote, velocity: u8 },
    ControlChange { channel: u8, controller: u8, value: u8 },
    Sustain { channel: u8, down: bool, value: u8 },
    Ignored { status: Option<u8>, length: usize },
}

/// A decoded message with the time it arrived, in nanoseconds of a monotonic clock.
#[derive(Clone, Copy, Debug)]
pub struct MidiEvent {
    pub message: MidiMessage,
    pub at: u64,
}

/// The names of the MIDI ports of the system.
#[derive(Debug)]
pub struct DeviceInventory {
    pub midi_inputs: Vec<String>,
    pub midi_outputs: Vec<String>,
}

impl Default for DeviceInventory {
    fn default() -> (r: Self)
        ensures
            r.midi_inputs@.len() == 0,
            r.midi_outputs@.len() == 0,
    {
        DeviceInventory { midi_inputs: Vec::new(), midi_outputs: Vec::new() }
    }
}

/// A data byte clamped to the 7-bit range.
pub open spec fn clamp7(b: u8) -> u8 {
    if b <= 127 { b } else { 127 }
}

/// What a message of raw bytes decodes to: note off (`0x8n`), note on (`0x9n`, velocity 0
/// meaning note off) and control change (`0xBn`, controller 64 being the sustain pedal)
/// with two data bytes; anything else, or a note number above 127, is not decoded.
pub open spec fn decode(bytes: Seq<u8>) -> Option<MidiMessage> {
    if bytes.len() == 0 || bytes[0] < 0x80 {
        None
    } else {
        let status = bytes[0];
        let channel = (status % 16) as u8;
        let kind = status / 16;
        if bytes.len() < 3 || !(kind == 8 || kind == 9 || kind == 11) {
            None
        } else if kind == 11 {
            let controller = bytes[1];
            let value = clamp7(bytes[2]);
            if controller == 64 {
                Some(MidiMessage::Sustain { channel, down: value >= 64, value })
            } else {
                Some(MidiMessage::ControlChange { channel, controller, value })
            }
        } else if bytes[1] > 127 {
            None
        } else {
            let note = MidiNote::from_byte(bytes[1]);
            let velocity = clamp7(bytes[2]);
            if kind == 8 {
                Some(MidiMessage::NoteOff { channel, note, velocity })
            } else if velocity == 0 {
                Some(MidiMessage::NoteOff { channel, note, velocity: 0 })
            } else {
                Some(MidiMessage::NoteOn { channel, note, velocity })
            }
        }
    }
}

/// Decodes one MIDI message; malformed, incomplete or unsupported data gives `None`.
pub fn parse(bytes: &[u8]) -> (r: Option<MidiMessage>)
    ensures
        r == decode(bytes@),
{
    if bytes.len() == 0 {
        return None;
    }
    let status = bytes[0];
    if status < 0x80 {
        return None;
    }
    let channel = status & 0x0f;
    let kind = status & 0xf0;
    assert(status & 0x0f == status % 16 && status & 0xf0 == (status / 16) * 16) by (bit_vector);
    let long_enough = bytes.len() >= 3;
    if kind == 0x80 && long_enough {
        let note = MidiNote::new(bytes[1])?;
        let velocity = if bytes[2] <= 127 { bytes[2] } else { 127 };
        Some(MidiMessage::NoteOff { channel, note, velocity })
    } else if kind == 0x90 && long_enough {
        let note = MidiNote::new(bytes[1])?;
        let velocity = if bytes[2] <= 127 { bytes[2] } else { 127 };
        if velocity == 0 {
            Some(MidiMessage::NoteOff { channel, note, velocity: 0 })
        } else {
            Some(MidiMessage::NoteOn { channel, note, velocity })
        }
    } else if kind == 0xb0 && long_enough {
        let controller = bytes[1];
        let value = if bytes[2] <= 127 { bytes[2] } else { 127 };
        if controller == 64 {
            Some(MidiMessage::Sustain { channel, down: value >= 64, value })
        } else {
            Some(MidiMessage::ControlChange { channel, controller, value })
        }
    } else {
        None
    }
}

/// A note on with velocity zero is decoded as a note off of the same note on the same
/// channel, whatever bytes follow the message.
pub proof fn lemma_zero_velocity_note_on_is_note_off(channel: u8, note: u8, extra: Seq<u8>)
    requires
        channel < 16,
        note <= 127,
    ensures
        decode(seq![(0x90 + channel) as u8, note, 0u8] + extra) == Some(
            MidiMessage::NoteOff { channel, note: MidiNote::from_byte(note), velocity: 0 },
        ),
{
    let bytes = seq![(0x90 + channel) as u8, note, 0u8] + extra;
    assert(bytes[0] == 0x90 + channel && bytes[1] == note && bytes[2] == 0);
}

/// The channel of a message can be shown one-based without overflow.
pub open spec fn displayable(m: MidiMessage) -> bool {
    match m {
        MidiMessage::NoteOn { channel, .. } => channel < 255,
        MidiMessage::NoteOff { channel, .. } => channel < 255,
        MidiMessage::ControlChange { channel, .. } => channel < 255,
        MidiMessage::Sustain { channel, .. } => channel < 255,
        MidiMessage::Ignored { .. } => true,
    }
}

/// `ch ` and the one-based channel number.
pub open spec fn channel_text(channel: u8) -> Seq<char> {
    "ch "@ + decimal((channel + 1) as nat)
}

/// The one-line display text of a message.
pub open spec fn message_text(m: MidiMessage) -> Seq<char> {
    match m {
        MidiMessage::NoteOn { channel, note, velocity } => channel_text(channel) + " note on  "@
            + pad_left(decimal(note.byte() as nat), 3) + " "@ + pad_left(note_text(note.byte()), 3)
            + " vel "@ + pad_left(decimal(velocity as nat), 3),
        MidiMessage::NoteOff { channel, note, velocity } => channel_text(channel) + " note off "@
            + pad_left(decimal(note.byte() as nat), 3) + " "@ + pad_left(note_text(note.byte()), 3)
            + " vel "@ + pad_left(decimal(velocity as nat), 3),
        MidiMessage::ControlChange { channel, controller, value } => channel_text(channel)
            + " cc "@ + pad_left(decimal(controller as nat), 3) + " value "@
            + pad_left(decimal(value as nat), 3),
        MidiMessage::Sustain { channel, down, value } => channel_text(channel) + " sustain "@
            + (if down { "down"@ } else { "up"@ }) + " ("@ + decimal(value as nat) + ")"@,
        MidiMessage::Ignored { status, length } => "ignored MIDI data: status "@
            + (match status { Some(b) => hex_byte(b), None => "\u{2014}"@ }) + " length "@
            + decimal(length as nat),
    }
}

/// Appends `ch ` and the one-based channel number.
fn push_channel(s: &mut String, channel: u8)
    requires
        channel < 255,
    ensures
        final(s)@ == old(s)@ + channel_text(channel),
{
    proof { reveal_strlit("ch "); }
    s.append("ch ");
    push_decimal(s, (channel + 1) as u64);
    assert(s@ =~= old(s)@ + channel_text(channel));
}

/// Appends a number right-aligned in three columns.
fn push_number3(s: &mut String, n: u64)
    ensures
        final(s)@ == old(s)@ + pad_left(decimal(n as nat), 3),
{
    let mut digits = String::new();
    push_decimal(&mut digits, n);
    assert(digits@ =~= decimal(n as nat));
    push_padded(s, digits.as_str(), 3);
}

/// Appends the note number, the note name and the velocity of a note message.
fn push_note_fields(s: &mut String, note: MidiNote, velocity: u8)
    ensures
        final(s)@ == old(s)@ + pad_left(decimal(note.byte() as nat), 3) + " "@
            + pad_left(note_text(note.byte()), 3) + " vel "@ + pad_left(decimal(velocity as nat), 3),
{
    push_number3(s, note.value() as u64);
    proof { reveal_strlit(" "); reveal_strlit(" vel "); }
    s.append(" ");
    let name = note.to_string();
    push_padded(s, name.as_str(), 3);
    s.append(" vel ");
    push_number3(s, velocity as u64);
    assert(s@ =~= old(s)@ + pad_left(decimal(note.byte() as nat), 3) + " "@
        + pad_left(note_text(note.byte()), 3) + " vel "@ + pad_left(decimal(velocity as nat), 3));
}

impl MidiMessage {
    /// The one-line display text, e.g. `ch 1 note on   60  C4 vel 100`.
    pub fn to_string(&self) -> (r: String)
        requires
            displayable(*self),
        ensures
            r@ == message_text(*self),
    {
        let mut s = String::new();
        match *self {
            MidiMessage::NoteOn { channel, note, velocity } => {
                push_channel(&mut s, channel);
                proof { reveal_strlit(" note on  "); }
                s.append(" note on  ");
                push_note_fields(&mut s, note, velocity);
            },
            MidiMessage::NoteOff { channel, note, velocity } => {
                push_channel(&mut s, channel);
                proof { reveal_strlit(" note off "); }
                s.append(" note off ");
                push_note_fields(&mut s, note, velocity);
            },
            MidiMessage::ControlChange { channel, controller, value } => {
                push_channel(&mut s, channel);
                proof { reveal_strlit(" cc "); reveal_strlit(" value "); }
                s.append(" cc ");
                push_number3(&mut s, controller as u64);
                s.append(" value ");
                push_number3(&mut s, value as u64);
            },
            MidiMessage::Sustain { channel, down, value } => {
                push_channel(&mut s, channel);
                proof {
                    reveal_strlit(" sustain ");
                    reveal_strlit("down");
                    reveal_strlit("up");
                    reveal_strlit(" (");
                    reveal_strlit(")");
                }
                s.append(" sustain ");
                if down {
                    s.append("down");
                } else {
                    s.append("up");
                }
                s.append(" (");
                push_decimal(&mut s, value as u64);
                s.append(")");
            },
            MidiMessage::Ignored { status, length } => {
                proof {
                    reveal_strlit("ignored MIDI data: status ");
                    reveal_strlit("\u{2014}");
                    reveal_strlit(" length ");
                }
                s.append("ignored MIDI data: status ");
                match status {
                    Some(b) => push_hex_byte(&mut s, b),
                    None => s.append("\u{2014}"),
                }
                s.append(" length ");
                push_decimal(&mut s, length as u64);
            },
        }
        assert(s@ =~= message_text(*self));
        s
    }
}

/// The lowercase form of a text, as Rust's `str::to_lowercase` computes it.
pub uninterp spec fn lowercase(s: Seq<char>) -> Seq<char>;

/// `str::to_lowercase`: the claim is only that the result is the (named) lowercase form of
/// the argument; the Unicode case mapping itself is not stated.
#[verifier::external_body]
fn to_lowercase(s: &str) -> (r: String)
    ensures
        r@ == lowercase(s@),
{
    s.to_lowercase()
}

/// `needle` occurs in `hay` as a contiguous piece.
pub open spec fn occurs_in(needle: Seq<char>, hay: Seq<char>) -> bool {
    exists|i: int| 0 <= i && i + needle.len() <= hay.len() && #[trigger] hay.subrange(i, i + needle.len()) == needle
}

/// Whether `needle` occurs in `hay` at position `start`.
fn occurs_at(hay: &str, needle: &str, start: usize) -> (r: bool)
    requires
        start + needle@.len() <= hay@.len(),
    ensures
        r == (hay@.subrange(start as int, start + needle@.len()) == needle@),
{
    let n = needle.unicode_len();
    let h = hay.unicode_len();
    let mut j: usize = 0;
    while j < n
        invariant
            n == needle@.len(),
            h == hay@.len(),
            j <= n,
            start + n <= hay@.len(),
            forall|k: int| 0 <= k < j ==> hay@[start + k] == needle@[k],
        decreases n - j,
    {
        if hay.get_char(start + j) != needle.get_char(j) {
            assert(hay@.subrange(start as int, start + n)[j as int] != needle@[j as int]);
            return false;
        }
        j += 1;
    }
    assert(hay@.subrange(start as int, start + n) =~= needle@);
    true
}

/// Whether `needle` occurs in `hay`.
pub fn contains_text(hay: &str, needle: &str) -> (r: bool)
    ensures
        r == occurs_in(needle@, hay@),
{
    let h = hay.unicode_len();
    let n = needle.unicode_len();
    if n > h {
        return false;
    }
    let last = h - n;
    let mut i: usize = 0;
    loop
        invariant
            h == hay@.len(),
            n == needle@.len(),
            n <= h,
            last == h - n,
            i <= last,
            forall|k: int| 0 <= k < i ==> #[trigger] hay@.subrange(k, k + n) != needle@,
        decreases last - i,
    {
        if occurs_at(hay, needle, i) {
            return true;
        }
        if i == last {
            return false;
        }
        i += 1;
    }
}

/// Whether a device name contains the requested substring, ignoring case.
pub fn device_matches(name: &str, needle: &str) -> (r: bool)
    ensures
        r == occurs_in(lowercase(needle@), lowercase(name@)),
{
    let lower_name = to_lowercase(name);
    let lower_needle = to_lowercase(needle);
    contains_text(lower_name.as_str(), lower_needle.as_str())
}

/// The position of the first name in which `needle` occurs.
pub open spec fn first_containing(names: Seq<Seq<char>>, needle: Seq<char>) -> Option<int> {
    if exists|i: int| 0 <= i < names.len() && occurs_in(needle, #[trigger] names[i]) {
        Some(choose|i: int| 0 <= i < names.len() && occurs_in(needle, #[trigger] names[i])
            && forall|j: int| 0 <= j < i ==> !occurs_in(needle, #[trigger] names[j]))
    } else {
        None
    }
}

/// The port to open, given lowercased names and the lowercased requested substring: the
/// first name containing the request; without a request, the first name containing
/// `mpkmini2`, else the only port when there is exactly one.
pub open spec fn port_choice(lower_names: Seq<Seq<char>>, lower_request: Option<Seq<char>>) -> Option<int> {
    match lower_request {
        Some(needle) => first_containing(lower_names, needle),
        None => match first_containing(lower_names, "mpkmini2"@) {
            Some(i) => Some(i),
            None => if lower_names.len() == 1 { Some(0) } else { None },
        },
    }
}

/// The texts of a sequence of strings.
pub open spec fn texts(v: Seq<String>) -> Seq<Seq<char>> {
    v.map_values(|s: String| s@)
}

/// Position of the first name containing `needle`.
fn find_containing(names: &Vec<String>, needle: &str) -> (r: Option<usize>)
    ensures
        r == match first_containing(texts(names@), needle@) {
            Some(i) => Some(i as usize),
            None => None::<usize>,
        },
        r matches Some(i) ==> i < names.len(),
{
    let ghost t = texts(names@);
    let mut i: usize = 0;
    while i < names.len()
        invariant
            i <= names.len(),
            t == texts(names@),
            t.len() == names.len(),
            forall|j: int| 0 <= j < i ==> !occurs_in(needle@, #[trigger] t[j]),
        decreases names.len() - i,
    {
        assert(t[i as int] == names@[i as int]@);
        if contains_text(names[i].as_str(), needle) {
            assert(occurs_in(needle@, t[i as int]));
            let ghost c = choose|k: int| 0 <= k < t.len() && occurs_in(needle@, #[trigger] t[k])
                && forall|j: int| 0 <= j < k ==> !occurs_in(needle@, #[trigger] t[j]);
            assert(c == i) by {
                if c < i {
                    assert(!occurs_in(needle@, t[c]));
                } else if c > i {
                    assert(!occurs_in(needle@, t[i as int]));
                }
            }
            return Some(i);
        }
        i += 1;
    }
    None
}

/// The port to open among names already lowercased, for a lowercased request.
pub fn pick_port(lower_names: &Vec<String>, lower_request: Option<&str>) -> (r: Option<usize>)
    ensures
        r == match port_choice(texts(lower_names@), match lower_request { Some(s) => Some(s@), None => None }) {
            Some(i) => Some(i as usize),
            None => None::<usize>,
        },
{
    match lower_request {
        Some(needle) => find_containing(lower_names, needle),
        None => {
            proof { reveal_strlit("mpkmini2"); }
            match find_containing(lower_names, "mpkmini2") {
                Some(i) => Some(i),
                None => if lower_names.len() == 1 { Some(0) } else { None },
            }
        },
    }
}

/// The position of the port to open, the names and the request compared in lowercase.
pub open spec fn chosen_port(names: Seq<String>, requested: Option<&str>) -> Option<int> {
    port_choice(
        names.map_values(|s: String| lowercase(s@)),
        match requested { Some(s) => Some(lowercase(s@)), None => None },
    )
}

/// Chooses the MIDI input to open: the first port whose name contains the requested
/// substring, ignoring case; without a request, the first port named like `MPKmini2`,
/// else the only port when there is exactly one.
pub fn choose_port(names: &[String], requested: Option<&str>) -> (r: Option<usize>)
    ensures
        r == match chosen_port(names@, requested) {
            Some(i) => Some(i as usize),
            None => None::<usize>,
        },
{
    let mut lowered: Vec<String> = Vec::new();
    let mut i: usize = 0;
    while i < names.len()
        invariant
            i <= names.len(),
            lowered.len() == i,
            forall|j: int| 0 <= j < i ==> #[trigger] lowered@[j]@ == lowercase(names@[j]@),
        decreases names.len() - i,
    {
        lowered.push(to_lowercase(names[i].as_str()));
        i += 1;
    }
    assert(texts(lowered@) =~= names@.map_values(|s: String| lowercase(s@)));
    match requested {
        Some(needle) => {
            let lower_needle = to_lowercase(needle);
            pick_port(&lowered, Some(lower_needle.as_str()))
        },
        None => pick_port(&lowered, None),
    }
}

/// Why no MIDI input could be chosen among several.
#[derive(Clone, Copy, Debug, PartialEq, Eq, Structural)]
pub enum PortError {
    /// No input name contains the requested substring.
    NoMatch,
    /// No input was requested, none is named like `MPKmini2`, and there is more than one.
    Ambiguous,
}

/// The input to connect to: none when there is no input at all; otherwise the port
/// `choose_port` picks, or why none could be picked.
pub fn input_choice(names: &[String], requested: Option<&str>) -> (r: Result<Option<usize>, PortError>)
    ensures
        names@.len() == 0 ==> r == Ok::<Option<usize>, PortError>(None),
        names@.len() > 0 ==> r == match chosen_port(names@, requested) {
            Some(i) => Ok::<Option<usize>, PortError>(Some(i as usize)),
            None => Err(if requested is Some { PortError::NoMatch } else { PortError::Ambiguous }),
        },
{
    if names.len() == 0 {
        return Ok(None);
    }
    match choose_port(names, requested) {
        Some(i) => Ok(Some(i)),
        None => match requested {
            Some(_) => Err(PortError::NoMatch),
            None => Err(PortError::Ambiguous),
        },
    }
}

} // verus!
