# wow-m2 chunks: particle emitters and texture animations

Reading and writing two chunks of the M2 model format, verified with Verus.

- `src/codec.rs` — little-endian encodings and `ByteCursor`, an in-memory
  read position whose reads either take the next bytes or fail and stand at
  the end of the input.
- `src/common.rs`, `src/animation.rs` — the fixed-size records that the
  chunks are made of: array references, vectors, animation tracks.
- `src/version.rs` — the format versions and the header version numbers that
  name them.
- `src/texture_animation.rs` — texture animations (three tracks).
- `src/particle_flags.rs`, `src/particle_emitter.rs` — particle emitters,
  whose layout depends on the header version.
- `src/emitter_roundtrip.rs` — what reading gives back of what writing an
  emitter produced.
- `app/` — reading from `std::io` readers and writing to writers, and the
  emitter with its floating-point fields as `f32`.

Floating-point fields are held by the library as their IEEE-754 bit patterns,
which reading and writing move unchanged.
