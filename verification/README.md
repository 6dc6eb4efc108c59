# synth_rack

A configurable audio generator. A rack holds instruments (oscillators, a
mixer, a small synthesizer, the audio output); their ports are wired together
through ring buffers, and the rack updates the instruments so that every
instrument runs after the instruments that feed it. A sequencer turns clips of
a score into commands for the instruments, and a fixed-timestep loop drives it
all.

## Layout

- `src/` is the library, verified with Verus: the wiring of a rack and the
  order of its updates, the connection state of ports, the resolution of port
  and parameter names, the stages of an envelope, the timing decisions of the
  update loop, and how configured connections are built.
- `tests/` exercises the library.
- `app/` is the program around it: reading the TOML configuration, the
  instruments' sample computations (floating point), the sequencer, the audio
  device and the loop that sleeps and reads the clock.

## Collections

Instruments are never removed from a rack, so an instrument's key is its
position in the rack's `Vec`, which takes the place of a `slotmap::SlotMap`
(the crate is not used). The names of the instruments, and the
dependencies handed to the topological sort, are kept in `Vec`s of pairs
whose names are distinct (a type invariant where the library owns the
pairs). A key type for a `slotmap::SlotMap` and maps keyed by `String` give
Verus nothing to reason with here: a name for the contents of a generic
outside collection cannot be given, and `String` keys prove nothing about
`HashMap` lookups.
