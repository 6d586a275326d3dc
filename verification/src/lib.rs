//! Particle emitters and texture animations of the M2 model format.
pub mod codec;
pub mod error;
pub mod common;
pub mod animation;
pub mod texture_animation;
pub mod version;
pub mod particle_flags;
pub mod particle_emitter;
pub mod emitter_roundtrip;
pub mod emitter_layout;
