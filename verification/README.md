# phase

`phase` is a terminal MIDI instrument and piano tutor: it decodes MIDI input, shows the
keyboard and the chord being played, and runs note, scale and rhythm exercises.

The library under `src/` holds the logic and is verified with Verus:

- `music`, `chord` — MIDI notes, pitch classes, scales and inversion-independent chord
  recognition;
- `midi` — decoding of MIDI bytes, the display text of messages and the choice of input port;
- `trainer` — the exercises, their scoring thresholds, the session totals and beat timing;
- `tutor` — the instrument and tutor state and its transitions on MIDI events and keys;
- `panels` — the texts of the interface panels (target, keyboard, recent events, chord,
  status line) built from that state;
- `controls`, `audio`, `config`, `stats`, `session`, `demo`, `cli`, `text` — knob mapping,
  voice allocation and key bookkeeping, settings, practice totals, the demo performer and text helpers.

Times are nanoseconds of a monotonic clock, kept as `u64`.

`app/` is the program around the library: command-line parsing, MIDI and audio devices,
the synthesizer (floating point), the terminal interface, and the settings and practice
files. `tests/` exercises the library from outside.
