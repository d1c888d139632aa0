# xsynth

The core of a SoundFont MIDI synthesizer built for high voice counts,
verified with Verus.

## Layout

- `src/` is the verified library: the decisions a synthesizer makes on
  integers and events. MIDI and C-interface event decoding, controller
  state (RPN/NRPN, damper, bank select), channels and channel groups with
  their event caches, the voice buffer of each key (voice groups, the layer
  limit, note-off and damper handling), soundfont program selection and
  region tables, envelope stage order, sample read positions and loops, and
  the buffering decisions of the render thread. Public functions state in
  their contracts what they return or change, with one exception: the
  voice counts read from the counters that rendering threads share are not
  stated, since nothing can be said of an atomic's value here. Public proof
  functions state the laws that hold across calls.
- `app/` is ordinary Rust around the library: floating-point rendering
  (voices, envelope levels, filters), thread pools, the render
  thread, configuration files and the C interface.
- `tests/` runs the library on concrete values.
