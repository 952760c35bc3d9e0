# camera_kelp

The frame logic of an audio-reactive camera effects demo (two warped camera
sheets, portals cut into the window, a neural overlay driven by the
microphone), written as a Verus-verified library, with the macOS program
around it.

- `src/` — the verified library:
  - `ring` — the audio sample ring written by the capture callback and read
    by the frame loop; in a power-of-two ring a read returns the latest
    samples written, however they were split in batches. Positions wrap as
    `usize` arithmetic does, so a read longer than the ring goes round it.
  - `spectrum` — the bass / mid / treble sample ranges of a window.
  - `portals` — edge portals, the default portal set, which portals survive
    a frame (ageing and eviction of the smallest free portals), packing for
    the GPU.
  - `burst` — the slot layout of a spiral portal burst.
  - `camera` — camera frame classification and the centre crop.
  - `gpu` — thread-group counts and the brightest-activation word.
  - `controls` — the keyboard and mouse controls as a state machine.
- `app/` — the program: Metal rendering, camera capture, the window and its
  mask, and the floating-point effects math, calling the library for every
  decision above.
- `tests/` — tests of the library on concrete values.

The Metal shader (`extras/shaders/camera_effects.metal`, compiled at start-up
by the program) is not part of this tree.
