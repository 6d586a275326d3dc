//! Particle emitters: where and how a model spawns particles.
//!
//! The record's layout depends on the header version of the file. Values that
//! the format stores as IEEE-754 single-precision floats are kept here as
//! their bit patterns (`u32`), so that reading and writing a record moves
//! them unchanged.
use vstd::prelude::*;

use crate::animation::{FakeAnimationBlock, M2AnimationBlock};
use crate::codec::{
    bits_of_i16, i16_from_bits, i16_of_bits, i16_to_bits, le_u16, le_u32, lemma_concat_assoc,
    lemma_rest_after_rest_after, low_byte, push_u16_le, push_u32_le, rest_after, u16_bytes,
    u32_bytes, u32_opt, u32_or, ByteCursor,
};
use crate::common::{C2Vector, C3Vector, M2Array};
use crate::error::M2Error;
use crate::particle_flags::M2ParticleFlags;
use crate::version::M2Version;

verus! {

/// Particle emitter type
#[derive(Debug, Clone, Copy, PartialEq, Eq, Structural)]
pub enum M2ParticleEmitterType {
    /// Point emitter (particles spawn from a single point)
    Point,
    /// Plane emitter (particles spawn within a 2D plane)
    Plane,
    /// Sphere emitter (particles spawn within a 3D sphere)
    Sphere,
    /// Spline emitter (particles follow a spline path)
    Spline,
    /// Bone emitter (particles spawn from a bone)
    Bone,
}

impl M2ParticleEmitterType {
    /// The number that stands for the type in a file.
    pub open spec fn code(self) -> u8 {
        match self {
            M2ParticleEmitterType::Point => 0,
            M2ParticleEmitterType::Plane => 1,
            M2ParticleEmitterType::Sphere => 2,
            M2ParticleEmitterType::Spline => 3,
            M2ParticleEmitterType::Bone => 4,
        }
    }

    /// The type whose code is `value`, or `Point` when no type has that code.
    pub open spec fn of_code_or_point(value: u8) -> Self {
        if value == 1 {
            M2ParticleEmitterType::Plane
        } else if value == 2 {
            M2ParticleEmitterType::Sphere
        } else if value == 3 {
            M2ParticleEmitterType::Spline
        } else if value == 4 {
            M2ParticleEmitterType::Bone
        } else {
            M2ParticleEmitterType::Point
        }
    }

    /// The type that `value` stands for: the one whose code it is, if any.
    pub fn from_u8(value: u8) -> (r: Option<Self>)
        ensures
            r is Some <==> value < 5,
            r matches Some(t) ==> t.code() == value,
    {
        match value {
            0 => Some(Self::Point),
            1 => Some(Self::Plane),
            2 => Some(Self::Sphere),
            3 => Some(Self::Spline),
            4 => Some(Self::Bone),
            _ => None,
        }
    }

    /// Each type has its own code, below 5, and reading a code back gives the type.
    pub proof fn lemma_code(self, other: Self)
        ensures
            self.code() < 5,
            self.code() == other.code() ==> self == other,
            Self::of_code_or_point(self.code()) == self,
    {
    }

    /// The number that stands for the type in a file.
    pub fn to_u8(self) -> (r: u8)
        ensures
            r == self.code(),
    {
        match self {
            M2ParticleEmitterType::Point => 0,
            M2ParticleEmitterType::Plane => 1,
            M2ParticleEmitterType::Sphere => 2,
            M2ParticleEmitterType::Spline => 3,
            M2ParticleEmitterType::Bone => 4,
        }
    }
}

/// Whether a header version number is Legion or later.
pub open spec fn is_legion(version: u32) -> bool {
    M2Version::header_is_at_least(version, M2Version::Legion)
}

/// Whether a header version number is Warlords of Draenor or later.
pub open spec fn is_wod(version: u32) -> bool {
    M2Version::header_is_at_least(version, M2Version::WoD)
}

/// Whether a header version number is Battle for Azeroth or later.
pub open spec fn is_bfa(version: u32) -> bool {
    M2Version::header_is_at_least(version, M2Version::BfA)
}

/// Whether a header version number is late Burning Crusade (262) or later.
pub open spec fn is_late_tbc(version: u32) -> bool {
    version >= 262
}

/// Whether a header version number is Wrath of the Lich King (264) or later.
pub open spec fn is_wotlk(version: u32) -> bool {
    version >= 264
}

/// Whether a header version number is Cataclysm (272) or later.
pub open spec fn is_cata(version: u32) -> bool {
    version >= 272
}

/// The three texture indices that a raw texture field stands for: from
/// Cataclysm on, three five-bit indices packed low bits first; before, one index.
pub open spec fn texture_indices_of(raw: u16, version: u32) -> [u16; 3] {
    if is_cata(version) {
        [raw & 0x1F, (raw >> 5) & 0x1F, (raw >> 10) & 0x1F]
    } else {
        [raw, 0, 0]
    }
}

/// The raw texture field that stands for three texture indices.
pub open spec fn texture_raw_of(indices: [u16; 3], version: u32) -> u16 {
    if is_cata(version) {
        indices[0] | (indices[1] << 5u16) | (indices[2] << 10u16)
    } else {
        indices[0]
    }
}

/// The bit pattern of `1.0`.
pub open spec fn one_bits() -> u32 {
    0x3F80_0000
}

/// The scale variation that stands when none is read: `(1.0, 1.0)`.
pub open spec fn unit_scale() -> C2Vector {
    C2Vector { x: one_bits(), y: one_bits() }
}

/// Represents a particle emitter in an M2 model (legacy layout for Vanilla,
/// TBC and WotLK, with the fields of later versions).
#[derive(Debug, Clone, Copy, PartialEq, Eq)]
pub struct M2ParticleEmitter {
    /// Unique identifier for this emitter (often -1).
    pub id: u32,
    /// Flags controlling particle behavior and rendering.
    pub flags: M2ParticleFlags,
    /// Position of the emitter relative to the attached bone.
    pub position: C3Vector,
    /// The bone index this emitter is attached to.
    pub bone_index: u16,
    /// Texture indices used by the particle.
    /// Cataclysm introduced multi-texturing via a bitfield, occupying these same 2 bytes.
    pub texture_indices: [u16; 3],
    /// Geometry model filename. If given, this emitter spawns model particles.
    pub model_filename: M2Array,
    /// Child emitters model filename. Introduced in WotLK (264).
    /// If given, child emitters are obtained from this model and emitted as a trail per particle.
    /// Before WotLK the record still holds its eight bytes; they are read past.
    pub child_emitter_filename: Option<M2Array>,
    /// A blending type for the particle (e.g., 0: Opaque, 1: AlphaBlend, 2: Additive, etc.).
    pub blending_type: u8,
    /// The shape of the emitter.
    pub emitter_type: M2ParticleEmitterType,
    /// Used in conjunction with ParticleColor.dbc to alter the default color.
    /// Introduced in late The Burning Crusade (262).
    pub particle_color_index: Option<u16>,
    /// Type of the particle.
    pub particle_type: u8,
    /// Determines billboard rendering behavior (0 - Head, 1 - Tail, 2 - Both).
    pub head_or_tail: u8,
    /// The rendering priority plane.
    pub priority_plane: i16,
    /// Number of texture rows for tiled textures.
    pub texture_dimensions_rows: u16,
    /// Number of texture columns for tiled textures.
    pub texture_dimensions_columns: u16,
    /// Base velocity at which particles are emitted.
    pub emission_speed: M2AnimationBlock,
    /// Random variation in particle emission speed (range: 0 to 1).
    pub speed_variation: M2AnimationBlock,
    /// Maximum polar angle of the initial velocity.
    pub vertical_range: M2AnimationBlock,
    /// Maximum azimuth angle of the initial velocity.
    pub horizontal_range: M2AnimationBlock,
    /// Gravity applied to the particles over time.
    pub gravity: M2AnimationBlock,
    /// Number of seconds each particle continues to be drawn after its creation.
    pub lifespan: M2AnimationBlock,
    /// Added to an individual particle's lifespan, times a random factor in [-1, 1].
    /// Introduced in WotLK (264).
    pub lifespan_variation: Option<u32>,
    /// Emission rate of the particles.
    pub emission_rate: M2AnimationBlock,
    /// Random variation added to the base emission rate value. Introduced in WotLK (264).
    pub emission_rate_variation: Option<u32>,
    /// For plane generators: width of the emission area. For sphere generators: maximum radius.
    pub emission_area_width: M2AnimationBlock,
    /// For plane generators: length of the emission area. For sphere generators: minimum radius.
    pub emission_area_length: M2AnimationBlock,
    /// When greater than 0, defines the initial velocity Z source offset.
    pub z_source: M2AnimationBlock,
    /// Particle color track. Usually contains 3 timestamps for {start, middle, end}.
    pub color_track: FakeAnimationBlock,
    /// Particle alpha/opacity track.
    pub alpha_track: FakeAnimationBlock,
    /// Particle scale track.
    pub scale_track: FakeAnimationBlock,
    /// A percentage amount to randomly vary the scale of each particle.
    pub scale_vary: C2Vector,
    /// UV animation sequence for the head particle's life.
    pub head_uv_anim: FakeAnimationBlock,
    /// UV animation sequence for the tail particle's life.
    pub tail_uv_anim: FakeAnimationBlock,
    /// A multiplier to the calculated tail particle length.
    pub tail_length: u32,
    /// Blinking speed of the particle.
    pub twinkle_speed: u32,
    /// How visible the particle is (1.0 = 100% of the time, 0.5 = 50% of the time).
    pub twinkle_percent: u32,
    /// Minimum scale variation for the twinkle effect.
    pub twinkle_scale_min: u32,
    /// Maximum scale variation for the twinkle effect.
    pub twinkle_scale_max: u32,
    /// Scales the velocity inherited from the parent particle.
    pub inherit_velocity_scale: u32,
    /// Particles slow down over time. Speed is multiplied by exp(-drag * time).
    pub drag: u32,
    /// Spin value for Vanilla/TBC (0.0 for none, 1.0 for full 360 degrees rotation).
    pub legacy_spin: Option<u32>,
    /// Initial rotation of the particle quad (WotLK+).
    pub base_spin: Option<u32>,
    /// Variation of the initial rotation (WotLK+).
    pub base_spin_variation: Option<u32>,
    /// Rotation of the particle quad per second (WotLK+).
    pub spin_speed: Option<u32>,
    /// Variation of the rotation speed (WotLK+).
    pub spin_speed_variation: Option<u32>,
    /// Minimum angular velocity (3D model particle rotation).
    pub tumble_min: C3Vector,
    /// Maximum angular velocity (3D model particle rotation).
    pub tumble_max: C3Vector,
    /// Static wind parameters, ignored if the DynamicWind flag is set.
    pub wind_vector: C3Vector,
    /// Wind time factor.
    pub wind_time: u32,
    /// Follow speed multiplier 1.
    pub follow_speed1: u32,
    /// Follow scale multiplier 1.
    pub follow_scale1: u32,
    /// Follow speed multiplier 2.
    pub follow_speed2: u32,
    /// Follow scale multiplier 2.
    pub follow_scale2: u32,
    /// Array of points for spline. Set only for spline particle emitters.
    pub spline_points: M2Array,
    /// Boolean track linking particles to animation sets where they are enabled.
    pub enabled_in: M2AnimationBlock,
    /// Explicit fallback model if main one fails to load (Legion+)
    pub fallback_model_filename: Option<M2Array>,
    /// Texture file IDs for multi-texture particles (Legion+)
    pub texture_file_data_ids: Option<M2Array>,
    /// Flag to enable encryption (WoD+)
    pub enable_encryption: Option<u8>,
    /// Multi-texture particle blend operation (BfA+)
    pub multi_texture_param0: Option<[u8; 4]>,
    /// Multi-texture particle blend flags (BfA+)
    pub multi_texture_param1: Option<[u8; 4]>,
    /// Base initial state for particles (Legion+)
    pub particle_initial_state: Option<u32>,
    /// Variation for initial state (Legion+)
    pub particle_initial_state_variation: Option<u32>,
    /// Convergence speed for particles (Legion+)
    pub particle_convergence_time: Option<u32>,
}

impl M2ParticleEmitter {
    // -----------------------------------------------------------------------
    // Layout of a record, by header version
    // -----------------------------------------------------------------------

    /// Offset of the blending type: after the Legion fallback model, if any.
    pub open spec fn blending_at(version: u32) -> int {
        40 + if is_legion(version) { 8int } else { 0int }
    }

    /// Bytes of the part that a failed read makes the whole read fail: up to
    /// and with the priority plane and the texture dimensions.
    pub open spec fn header_size(version: u32) -> int {
        52 + (if is_legion(version) { 16int } else { 0int }) + (if is_wod(version) { 1int } else { 0int })
            + (if is_bfa(version) { 8int } else { 0int })
    }

    /// Bytes of the ten tracks from the emission speed to the Z source, with
    /// the two variations that WotLK adds among them. A track takes
    /// twenty-eight bytes before WotLK, where it holds interpolation ranges,
    /// and twenty from WotLK on.
    pub open spec fn tracks_size(version: u32) -> int {
        if is_wotlk(version) { 208 } else { 280 }
    }

    /// Offset, in the tracks, of the emission rate: after six tracks and,
    /// from WotLK on, the lifespan variation.
    pub open spec fn rate_at(version: u32) -> int {
        if is_wotlk(version) { 124 } else { 168 }
    }

    /// Offset, in the tracks, of the emission area width: after seven
    /// tracks and, from WotLK on, the two variations.
    pub open spec fn area_at(version: u32) -> int {
        if is_wotlk(version) { 148 } else { 196 }
    }

    /// Bytes of the fake tracks (WotLK on) or of the gap that stands for them.
    pub open spec fn fake_size(version: u32) -> int {
        if is_wotlk(version) { 88 } else { 48 }
    }

    /// Bytes of the spin values.
    pub open spec fn spin_size(version: u32) -> int {
        if is_wotlk(version) { 16 } else { 4 }
    }

    /// Bytes of the vectors, the wind time, the follow values, the spline
    /// points and the enabled-in track.
    pub open spec fn motion_size(version: u32) -> int {
        64 + M2AnimationBlock::size_for(version)
    }

    /// Bytes of a whole record.
    pub open spec fn record_size(version: u32) -> int {
        Self::header_size(version) + Self::tracks_size(version) + Self::fake_size(version) + 28
            + Self::spin_size(version) + Self::motion_size(version) + if is_legion(version) {
            12int
        } else {
            0int
        }
    }

    /// The identifier through the child emitter filename (present from WotLK
    /// on; its eight bytes stand at every version), and the fallback model
    /// filename (Legion on), from the record at `s`.
    #[verifier::opaque]
    pub open spec fn identity_of(s: Seq<u8>, version: u32) -> (
        u32,
        M2ParticleFlags,
        C3Vector,
        u16,
        [u16; 3],
        M2Array,
        Option<M2Array>,
        Option<M2Array>,
    ) {
        (
            le_u32(s),
            M2ParticleFlags { bits: le_u32(s.skip(4)) },
            C3Vector::decode(s.skip(8)),
            le_u16(s.skip(20)),
            texture_indices_of(le_u16(s.skip(22)), version),
            M2Array::decode(s.skip(24)),
            if is_wotlk(version) {
                Some(M2Array::decode(s.skip(32)))
            } else {
                None
            },
            if is_legion(version) {
                Some(M2Array::decode(s.skip(40)))
            } else {
                None
            },
        )
    }

    /// The blending type, emitter type, color index, particle type,
    /// head-or-tail byte, and the texture file data ids (Legion on), the
    /// encryption flag (WoD on) and the two multi-texture parameters (BfA on),
    /// from the bytes `k` that start at the blending type.
    #[verifier::opaque]
    pub open spec fn kind_of(k: Seq<u8>, version: u32) -> (
        u8,
        M2ParticleEmitterType,
        Option<u16>,
        u8,
        u8,
        Option<M2Array>,
        Option<u8>,
        Option<[u8; 4]>,
        Option<[u8; 4]>,
    ) {
        let e = 6 + if is_legion(version) { 8int } else { 0int };
        let w = e + if is_wod(version) { 1int } else { 0int };
        (
            if is_late_tbc(version) {
                k[0]
            } else {
                low_byte(le_u16(k))
            },
            M2ParticleEmitterType::of_code_or_point(
                if is_late_tbc(version) {
                    k[1]
                } else {
                    low_byte(le_u16(k.skip(2)))
                },
            ),
            if is_late_tbc(version) {
                Some(le_u16(k.skip(2)))
            } else {
                None
            },
            if is_cata(version) { 0 } else { k[4] },
            if is_cata(version) { 0 } else { k[5] },
            if is_legion(version) {
                Some(M2Array::decode(k.skip(6)))
            } else {
                None
            },
            if is_wod(version) {
                Some(k[e])
            } else {
                None
            },
            if is_bfa(version) {
                Some([k[w], k[w + 1], k[w + 2], k[w + 3]])
            } else {
                None
            },
            if is_bfa(version) {
                Some([k[w + 4], k[w + 5], k[w + 6], k[w + 7]])
            } else {
                None
            },
        )
    }

    /// The initial state, its variation and the convergence time (Legion
    /// on), from the bytes `x` that close the record.
    #[verifier::opaque]
    pub open spec fn closing_of(x: Seq<u8>, version: u32) -> (
        Option<u32>,
        Option<u32>,
        Option<u32>,
    ) {
        if is_legion(version) {
            (Some(le_u32(x)), Some(le_u32(x.skip(4))), Some(le_u32(x.skip(8))))
        } else {
            (None, None, None)
        }
    }

    /// The priority plane and the texture dimensions, from the bytes `p`.
    #[verifier::opaque]
    pub open spec fn dimensions_of(p: Seq<u8>) -> (i16, u16, u16) {
        (i16_of_bits(le_u16(p)), le_u16(p.skip(2)), le_u16(p.skip(4)))
    }

    /// The tracks, each the zero track where the bytes `t` do not reach it.
    #[verifier::opaque]
    pub open spec fn tracks_of(t: Seq<u8>, version: u32) -> (
        M2AnimationBlock,
        M2AnimationBlock,
        M2AnimationBlock,
        M2AnimationBlock,
        M2AnimationBlock,
        M2AnimationBlock,
        Option<u32>,
        M2AnimationBlock,
        Option<u32>,
        M2AnimationBlock,
        M2AnimationBlock,
        M2AnimationBlock,
    ) {
        let n = M2AnimationBlock::size_for(version);
        (
            M2AnimationBlock::decode_or_zero_for(t, version),
            M2AnimationBlock::decode_or_zero_for(rest_after(t, n), version),
            M2AnimationBlock::decode_or_zero_for(rest_after(t, 2 * n), version),
            M2AnimationBlock::decode_or_zero_for(rest_after(t, 3 * n), version),
            M2AnimationBlock::decode_or_zero_for(rest_after(t, 4 * n), version),
            M2AnimationBlock::decode_or_zero_for(rest_after(t, 5 * n), version),
            if is_wotlk(version) {
                u32_opt(rest_after(t, 120))
            } else {
                None
            },
            M2AnimationBlock::decode_or_zero_for(rest_after(t, Self::rate_at(version)), version),
            if is_wotlk(version) {
                u32_opt(rest_after(t, 144))
            } else {
                None
            },
            M2AnimationBlock::decode_or_zero_for(rest_after(t, Self::area_at(version)), version),
            M2AnimationBlock::decode_or_zero_for(
                rest_after(t, Self::area_at(version) + n),
                version,
            ),
            M2AnimationBlock::decode_or_zero_for(
                rest_after(t, Self::area_at(version) + 2 * n),
                version,
            ),
        )
    }

    /// The fake tracks and the scale variation (WotLK on) from the bytes `f`,
    /// each its default where the bytes do not reach it; the defaults before.
    #[verifier::opaque]
    pub open spec fn fake_tracks_of(f: Seq<u8>, version: u32) -> (
        FakeAnimationBlock,
        FakeAnimationBlock,
        FakeAnimationBlock,
        C2Vector,
        FakeAnimationBlock,
        FakeAnimationBlock,
    ) {
        if is_wotlk(version) {
            (
                FakeAnimationBlock::decode_or_empty(f),
                FakeAnimationBlock::decode_or_empty(rest_after(f, 16)),
                FakeAnimationBlock::decode_or_empty(rest_after(f, 32)),
                C2Vector::decode_or(rest_after(f, 48), unit_scale()),
                FakeAnimationBlock::decode_or_empty(rest_after(f, 56)),
                FakeAnimationBlock::decode_or_empty(rest_after(f, 72)),
            )
        } else {
            (
                FakeAnimationBlock::empty(),
                FakeAnimationBlock::empty(),
                FakeAnimationBlock::empty(),
                unit_scale(),
                FakeAnimationBlock::empty(),
                FakeAnimationBlock::empty(),
            )
        }
    }

    /// The seven render parameters from the bytes `q`, each `0.0` where the
    /// bytes do not reach it.
    #[verifier::opaque]
    pub open spec fn render_params_of(q: Seq<u8>) -> (u32, u32, u32, u32, u32, u32, u32) {
        (
            u32_or(q, 0),
            u32_or(rest_after(q, 4), 0),
            u32_or(rest_after(q, 8), 0),
            u32_or(rest_after(q, 12), 0),
            u32_or(rest_after(q, 16), 0),
            u32_or(rest_after(q, 20), 0),
            u32_or(rest_after(q, 24), 0),
        )
    }

    /// The legacy spin, base spin, its variation, spin speed and its
    /// variation, from the bytes `sp`.
    #[verifier::opaque]
    pub open spec fn spin_of(sp: Seq<u8>, version: u32) -> (
        Option<u32>,
        Option<u32>,
        Option<u32>,
        Option<u32>,
        Option<u32>,
    ) {
        if is_wotlk(version) {
            (
                None,
                u32_opt(sp),
                u32_opt(rest_after(sp, 4)),
                u32_opt(rest_after(sp, 8)),
                u32_opt(rest_after(sp, 12)),
            )
        } else {
            (u32_opt(sp), None, None, None, None)
        }
    }

    /// The tumble and wind vectors, wind time, follow values, spline points
    /// and enabled-in track, from the bytes `w`, each its default where the
    /// bytes do not reach it.
    #[verifier::opaque]
    pub open spec fn motion_of(w: Seq<u8>, version: u32) -> (
        C3Vector,
        C3Vector,
        C3Vector,
        u32,
        u32,
        u32,
        u32,
        u32,
        M2Array,
        M2AnimationBlock,
    ) {
        (
            C3Vector::decode_or_zero(w),
            C3Vector::decode_or_zero(rest_after(w, 12)),
            C3Vector::decode_or_zero(rest_after(w, 24)),
            u32_or(rest_after(w, 36), 0),
            u32_or(rest_after(w, 40), 0),
            u32_or(rest_after(w, 44), 0),
            u32_or(rest_after(w, 48), 0),
            u32_or(rest_after(w, 52), 0),
            M2Array::decode_or_empty(rest_after(w, 56)),
            M2AnimationBlock::decode_or_zero_for(rest_after(w, 64), version),
        )
    }

    /// The emitter that the record at the start of `s` stands for, where each
    /// field after the header that the bytes do not reach takes its default.
    pub open spec fn decode(s: Seq<u8>, version: u32) -> Self {
        let t = rest_after(s, Self::header_size(version));
        let f = rest_after(t, Self::tracks_size(version));
        let q = rest_after(f, Self::fake_size(version));
        let sp = rest_after(q, 28);
        let w = rest_after(sp, Self::spin_size(version));
        let x = rest_after(w, Self::motion_size(version));
        let a = Self::identity_of(s, version);
        let k = Self::kind_of(rest_after(s, Self::blending_at(version)), version);
        let d = Self::dimensions_of(rest_after(s, Self::header_size(version) - 6));
        let tr = Self::tracks_of(t, version);
        let fk = Self::fake_tracks_of(f, version);
        let pa = Self::render_params_of(q);
        let sn = Self::spin_of(sp, version);
        let m = Self::motion_of(w, version);
        let c = Self::closing_of(x, version);
        M2ParticleEmitter {
            id: a.0,
            flags: a.1,
            position: a.2,
            bone_index: a.3,
            texture_indices: a.4,
            model_filename: a.5,
            child_emitter_filename: a.6,
            blending_type: k.0,
            emitter_type: k.1,
            particle_color_index: k.2,
            particle_type: k.3,
            head_or_tail: k.4,
            priority_plane: d.0,
            texture_dimensions_rows: d.1,
            texture_dimensions_columns: d.2,
            emission_speed: tr.0,
            speed_variation: tr.1,
            vertical_range: tr.2,
            horizontal_range: tr.3,
            gravity: tr.4,
            lifespan: tr.5,
            lifespan_variation: tr.6,
            emission_rate: tr.7,
            emission_rate_variation: tr.8,
            emission_area_width: tr.9,
            emission_area_length: tr.10,
            z_source: tr.11,
            color_track: fk.0,
            alpha_track: fk.1,
            scale_track: fk.2,
            scale_vary: fk.3,
            head_uv_anim: fk.4,
            tail_uv_anim: fk.5,
            tail_length: pa.0,
            twinkle_speed: pa.1,
            twinkle_percent: pa.2,
            twinkle_scale_min: pa.3,
            twinkle_scale_max: pa.4,
            inherit_velocity_scale: pa.5,
            drag: pa.6,
            legacy_spin: sn.0,
            base_spin: sn.1,
            base_spin_variation: sn.2,
            spin_speed: sn.3,
            spin_speed_variation: sn.4,
            tumble_min: m.0,
            tumble_max: m.1,
            wind_vector: m.2,
            wind_time: m.3,
            follow_speed1: m.4,
            follow_scale1: m.5,
            follow_speed2: m.6,
            follow_scale2: m.7,
            spline_points: m.8,
            enabled_in: m.9,
            fallback_model_filename: a.7,
            texture_file_data_ids: k.5,
            enable_encryption: k.6,
            multi_texture_param0: k.7,
            multi_texture_param1: k.8,
            particle_initial_state: c.0,
            particle_initial_state_variation: c.1,
            particle_convergence_time: c.2,
        }
    }

    /// What `parse` gives for the bytes `s`: an end-of-input error when `s`
    /// ends inside the header, or, from Legion on, before the end of the
    /// record; the decoded emitter otherwise.
    pub open spec fn parsed(s: Seq<u8>, version: u32) -> Result<Self, M2Error> {
        if s.len() >= Self::header_size(version) && (!is_legion(version) || s.len()
            >= Self::record_size(version)) {
            Ok(Self::decode(s, version))
        } else {
            Err(M2Error::UnexpectedEof)
        }
    }

    /// Reads from the identifier to the child emitter filename, and the
    /// Legion fallback model filename.
    fn parse_identity(reader: &mut ByteCursor, version: u32) -> (r: Result<
        (u32, M2ParticleFlags, C3Vector, u16, [u16; 3], M2Array, Option<M2Array>, Option<M2Array>),
        M2Error,
    >)
        ensures
            final(reader).bytes() == old(reader).bytes(),
            final(reader).pos() <= final(reader).bytes().len(),
            old(reader).remaining().len() >= Self::blending_at(version) ==> r == Ok::<_, M2Error>(
                Self::identity_of(old(reader).remaining(), version),
            ) && final(reader).remaining() == rest_after(
                old(reader).remaining(),
                Self::blending_at(version),
            ),
            old(reader).remaining().len() < Self::blending_at(version) ==> r == Err::<
                (u32, M2ParticleFlags, C3Vector, u16, [u16; 3], M2Array, Option<M2Array>, Option<M2Array>),
                M2Error,
            >(M2Error::UnexpectedEof) && final(reader).remaining() == Seq::<u8>::empty(),
    {
        reveal(M2ParticleEmitter::identity_of);
        let ghost s = reader.remaining();
        proof {
            lemma_rest_after_rest_after(s, 4, 4);
            lemma_rest_after_rest_after(s, 8, 12);
            lemma_rest_after_rest_after(s, 20, 2);
            lemma_rest_after_rest_after(s, 22, 2);
            lemma_rest_after_rest_after(s, 24, 8);
            lemma_rest_after_rest_after(s, 32, 8);
            lemma_rest_after_rest_after(s, 40, 8);
        }
        let id = reader.read_u32_le()?;
        let flag_bits = reader.read_u32_le()?;
        let flags = M2ParticleFlags::from_bits_retain(flag_bits);
        let position = C3Vector::parse(reader)?;
        let bone_index = reader.read_u16_le()?;
        let texture_index_raw = reader.read_u16_le()?;
        let texture_indices = if version >= 272 {
            // Cataclysm+
            [
                texture_index_raw & 0x1F,
                (texture_index_raw >> 5) & 0x1F,
                (texture_index_raw >> 10) & 0x1F,
            ]
        } else {
            [texture_index_raw, 0, 0]
        };
        let model_filename = M2Array::parse(reader)?;
        // Introduced in WotLK; its eight bytes stand in every version.
        let child = M2Array::parse(reader)?;
        let child_emitter_filename = if version >= 264 {
            Some(child)
        } else {
            None
        };
        // Legion+
        let fallback_model_filename = if Self::legion_or_later(version) {
            Some(M2Array::parse(reader)?)
        } else {
            None
        };
        Ok(
            (
                id,
                flags,
                position,
                bone_index,
                texture_indices,
                model_filename,
                child_emitter_filename,
                fallback_model_filename,
            ),
        )
    }

    /// Whether a header version number is Legion or later.
    fn legion_or_later(version: u32) -> (r: bool)
        ensures
            r == is_legion(version),
    {
        match M2Version::from_header_version(version) {
            Some(v) => v.at_least(M2Version::Legion),
            None => false,
        }
    }

    /// Whether a header version number is Warlords of Draenor or later.
    fn wod_or_later(version: u32) -> (r: bool)
        ensures
            r == is_wod(version),
    {
        match M2Version::from_header_version(version) {
            Some(v) => v.at_least(M2Version::WoD),
            None => false,
        }
    }

    /// Whether a header version number is Battle for Azeroth or later.
    fn bfa_or_later(version: u32) -> (r: bool)
        ensures
            r == is_bfa(version),
    {
        match M2Version::from_header_version(version) {
            Some(v) => v.at_least(M2Version::BfA),
            None => false,
        }
    }

    /// Bytes from the blending type to the priority plane.
    pub open spec fn kind_size(version: u32) -> int {
        Self::header_size(version) - 6 - Self::blending_at(version)
    }

    /// Reads from the blending type to the head-or-tail byte, and the fields
    /// that later versions add before the priority plane.
    fn parse_kind(reader: &mut ByteCursor, version: u32) -> (r: Result<
        (u8, M2ParticleEmitterType, Option<u16>, u8, u8, Option<M2Array>, Option<u8>, Option<[u8; 4]>, Option<[u8; 4]>),
        M2Error,
    >)
        ensures
            final(reader).bytes() == old(reader).bytes(),
            final(reader).pos() <= final(reader).bytes().len(),
            old(reader).remaining().len() >= Self::kind_size(version) ==> r == Ok::<_, M2Error>(
                Self::kind_of(old(reader).remaining(), version),
            ) && final(reader).remaining() == rest_after(
                old(reader).remaining(),
                Self::kind_size(version),
            ),
            old(reader).remaining().len() < Self::kind_size(version) ==> r == Err::<
                (u8, M2ParticleEmitterType, Option<u16>, u8, u8, Option<M2Array>, Option<u8>, Option<[u8; 4]>, Option<[u8; 4]>),
                M2Error,
            >(M2Error::UnexpectedEof) && final(reader).remaining() == Seq::<u8>::empty(),
    {
        reveal(M2ParticleEmitter::kind_of);
        let ghost k = reader.remaining();
        let legion = Self::legion_or_later(version);
        let wod = Self::wod_or_later(version);
        let bfa = Self::bfa_or_later(version);
        let ghost e = 6 + if legion { 8int } else { 0int };
        let ghost w = e + if wod { 1int } else { 0int };
        proof {
            lemma_rest_after_rest_after(k, 1, 1);
            lemma_rest_after_rest_after(k, 2, 2);
            lemma_rest_after_rest_after(k, 4, 1);
            lemma_rest_after_rest_after(k, 4, 2);
            lemma_rest_after_rest_after(k, 5, 1);
            lemma_rest_after_rest_after(k, 6, 8);
            lemma_rest_after_rest_after(k, e, 1);
            lemma_rest_after_rest_after(k, w, 4);
            lemma_rest_after_rest_after(k, w + 4, 4);
            if k.len() >= Self::kind_size(version) {
                assert(rest_after(k, 6) == k.skip(6));
            }
        }
        let blending_type;
        let emitter_type;
        let particle_color_index;
        if version >= 262 {
            // TBC+
            blending_type = reader.read_u8()?;
            let code = reader.read_u8()?;
            emitter_type = match M2ParticleEmitterType::from_u8(code) {
                Some(t) => t,
                None => M2ParticleEmitterType::Point,
            };
            particle_color_index = Some(reader.read_u16_le()?);
        } else {
            // Vanilla: both are u16
            let blending_raw = reader.read_u16_le()?;
            blending_type = (blending_raw % 256) as u8;
            let code_raw = reader.read_u16_le()?;
            emitter_type = match M2ParticleEmitterType::from_u8((code_raw % 256) as u8) {
                Some(t) => t,
                None => M2ParticleEmitterType::Point,
            };
            particle_color_index = None;
        }
        let mut particle_type: u8 = 0;
        let mut head_or_tail: u8 = 0;
        if version >= 272 {
            // Cataclysm+: two i8 of multiTexScale, read past.
            reader.skip_bytes(2)?;
        } else {
            particle_type = reader.read_u8()?;
            head_or_tail = reader.read_u8()?;
        }
        // Legion+: texture file data ids; WoD+: encryption flag; BfA+: the
        // two multi-texture parameters.
        let texture_file_data_ids = if legion {
            Some(M2Array::parse(reader)?)
        } else {
            None
        };
        let enable_encryption = if wod {
            Some(reader.read_u8()?)
        } else {
            None
        };
        let mut multi_texture_param0 = None;
        let mut multi_texture_param1 = None;
        if bfa {
            multi_texture_param0 = Some(reader.read_bytes4()?);
            multi_texture_param1 = Some(reader.read_bytes4()?);
        }
        Ok(
            (
                blending_type,
                emitter_type,
                particle_color_index,
                particle_type,
                head_or_tail,
                texture_file_data_ids,
                enable_encryption,
                multi_texture_param0,
                multi_texture_param1,
            ),
        )
    }

    /// Reads the priority plane and the texture dimensions.
    fn parse_dimensions(reader: &mut ByteCursor) -> (r: Result<(i16, u16, u16), M2Error>)
        ensures
            final(reader).bytes() == old(reader).bytes(),
            final(reader).pos() <= final(reader).bytes().len(),
            old(reader).remaining().len() >= 6 ==> r == Ok::<_, M2Error>(
                Self::dimensions_of(old(reader).remaining()),
            ) && final(reader).remaining() == rest_after(old(reader).remaining(), 6),
            old(reader).remaining().len() < 6 ==> r == Err::<(i16, u16, u16), M2Error>(
                M2Error::UnexpectedEof,
            ) && final(reader).remaining() == Seq::<u8>::empty(),
    {
        reveal(M2ParticleEmitter::dimensions_of);
        let ghost p = reader.remaining();
        proof {
            lemma_rest_after_rest_after(p, 2, 2);
            lemma_rest_after_rest_after(p, 4, 2);
        }
        let priority_plane = reader.read_u16_le()?;
        let texture_dimensions_rows = reader.read_u16_le()?;
        let texture_dimensions_columns = reader.read_u16_le()?;
        Ok((i16_from_bits(priority_plane), texture_dimensions_rows, texture_dimensions_columns))
    }

    /// Reads the twelve tracks and the two WotLK variations among them; each
    /// one that the input does not reach takes its default.
    fn parse_tracks(reader: &mut ByteCursor, version: u32) -> (r: (
        M2AnimationBlock,
        M2AnimationBlock,
        M2AnimationBlock,
        M2AnimationBlock,
        M2AnimationBlock,
        M2AnimationBlock,
        Option<u32>,
        M2AnimationBlock,
        Option<u32>,
        M2AnimationBlock,
        M2AnimationBlock,
        M2AnimationBlock,
    ))
        ensures
            final(reader).bytes() == old(reader).bytes(),
            final(reader).pos() <= final(reader).bytes().len(),
            final(reader).remaining() == rest_after(old(reader).remaining(), Self::tracks_size(version)),
            r == Self::tracks_of(old(reader).remaining(), version),
    {
        reveal(M2ParticleEmitter::tracks_of);
        let ghost t = reader.remaining();
        let ghost n = M2AnimationBlock::size_for(version);
        proof {
            lemma_rest_after_rest_after(t, n, n);
            lemma_rest_after_rest_after(t, 2 * n, n);
            lemma_rest_after_rest_after(t, 3 * n, n);
            lemma_rest_after_rest_after(t, 4 * n, n);
            lemma_rest_after_rest_after(t, 5 * n, n);
            lemma_rest_after_rest_after(t, 120, 4);
            lemma_rest_after_rest_after(t, Self::rate_at(version), n);
            lemma_rest_after_rest_after(t, 144, 4);
            lemma_rest_after_rest_after(t, Self::area_at(version), n);
            lemma_rest_after_rest_after(t, Self::area_at(version) + n, n);
        }
        let emission_speed = M2AnimationBlock::parse_or_zero_for(reader, version);
        let speed_variation = M2AnimationBlock::parse_or_zero_for(reader, version);
        let vertical_range = M2AnimationBlock::parse_or_zero_for(reader, version);
        let horizontal_range = M2AnimationBlock::parse_or_zero_for(reader, version);
        let gravity = M2AnimationBlock::parse_or_zero_for(reader, version);
        let lifespan = M2AnimationBlock::parse_or_zero_for(reader, version);
        let lifespan_variation = if version >= 264 {
            reader.read_u32_opt()
        } else {
            None
        };
        let emission_rate = M2AnimationBlock::parse_or_zero_for(reader, version);
        let emission_rate_variation = if version >= 264 {
            reader.read_u32_opt()
        } else {
            None
        };
        let emission_area_width = M2AnimationBlock::parse_or_zero_for(reader, version);
        let emission_area_length = M2AnimationBlock::parse_or_zero_for(reader, version);
        let z_source = M2AnimationBlock::parse_or_zero_for(reader, version);
        (
            emission_speed,
            speed_variation,
            vertical_range,
            horizontal_range,
            gravity,
            lifespan,
            lifespan_variation,
            emission_rate,
            emission_rate_variation,
            emission_area_width,
            emission_area_length,
            z_source,
        )
    }

    /// Reads the fake tracks and the scale variation (WotLK on), or past the
    /// 48 bytes that stand in for them before; each value that the input does
    /// not reach takes its default.
    fn parse_fake_tracks(reader: &mut ByteCursor, version: u32) -> (r: (
        FakeAnimationBlock,
        FakeAnimationBlock,
        FakeAnimationBlock,
        C2Vector,
        FakeAnimationBlock,
        FakeAnimationBlock,
    ))
        ensures
            final(reader).bytes() == old(reader).bytes(),
            final(reader).pos() <= final(reader).bytes().len(),
            final(reader).remaining() == rest_after(old(reader).remaining(), Self::fake_size(version)),
            r == Self::fake_tracks_of(old(reader).remaining(), version),
    {
        reveal(M2ParticleEmitter::fake_tracks_of);
        let ghost f = reader.remaining();
        proof {
            lemma_rest_after_rest_after(f, 16, 16);
            lemma_rest_after_rest_after(f, 32, 16);
            lemma_rest_after_rest_after(f, 48, 8);
            lemma_rest_after_rest_after(f, 56, 16);
            lemma_rest_after_rest_after(f, 72, 16);
        }
        let empty_c2 = C2Vector { x: 0x3F80_0000, y: 0x3F80_0000 };
        if version >= 264 {
            // WotLK
            let color_track = FakeAnimationBlock::parse_or_empty(reader);
            let alpha_track = FakeAnimationBlock::parse_or_empty(reader);
            let scale_track = FakeAnimationBlock::parse_or_empty(reader);
            let scale_vary = C2Vector::parse_or(reader, empty_c2);
            let head_uv_anim = FakeAnimationBlock::parse_or_empty(reader);
            let tail_uv_anim = FakeAnimationBlock::parse_or_empty(reader);
            (color_track, alpha_track, scale_track, scale_vary, head_uv_anim, tail_uv_anim)
        } else {
            // Vanilla & TBC: 48 bytes that stand in for the fake tracks.
            let _ = reader.skip_bytes(48);
            let empty = FakeAnimationBlock {
                timestamps: M2Array::new(0, 0),
                values: M2Array::new(0, 0),
            };
            (empty, empty, empty, empty_c2, empty, empty)
        }
    }

    /// Reads the seven render parameters; each one that the input does not
    /// reach is `0.0`.
    fn parse_render_params(reader: &mut ByteCursor) -> (r: (u32, u32, u32, u32, u32, u32, u32))
        ensures
            final(reader).bytes() == old(reader).bytes(),
            final(reader).pos() <= final(reader).bytes().len(),
            final(reader).remaining() == rest_after(old(reader).remaining(), 28),
            r == Self::render_params_of(old(reader).remaining()),
    {
        reveal(M2ParticleEmitter::render_params_of);
        let ghost q = reader.remaining();
        proof {
            lemma_rest_after_rest_after(q, 4, 4);
            lemma_rest_after_rest_after(q, 8, 4);
            lemma_rest_after_rest_after(q, 12, 4);
            lemma_rest_after_rest_after(q, 16, 4);
            lemma_rest_after_rest_after(q, 20, 4);
            lemma_rest_after_rest_after(q, 24, 4);
        }
        let tail_length = reader.read_u32_or(0);
        let twinkle_speed = reader.read_u32_or(0);
        let twinkle_percent = reader.read_u32_or(0);
        let twinkle_scale_min = reader.read_u32_or(0);
        let twinkle_scale_max = reader.read_u32_or(0);
        let inherit_velocity_scale = reader.read_u32_or(0);
        let drag = reader.read_u32_or(0);
        (
            tail_length,
            twinkle_speed,
            twinkle_percent,
            twinkle_scale_min,
            twinkle_scale_max,
            inherit_velocity_scale,
            drag,
        )
    }

    /// Reads the spin values: four from WotLK on, one before.
    fn parse_spin(reader: &mut ByteCursor, version: u32) -> (r: (
        Option<u32>,
        Option<u32>,
        Option<u32>,
        Option<u32>,
        Option<u32>,
    ))
        ensures
            final(reader).bytes() == old(reader).bytes(),
            final(reader).pos() <= final(reader).bytes().len(),
            final(reader).remaining() == rest_after(old(reader).remaining(), Self::spin_size(version)),
            r == Self::spin_of(old(reader).remaining(), version),
    {
        reveal(M2ParticleEmitter::spin_of);
        let ghost sp = reader.remaining();
        proof {
            lemma_rest_after_rest_after(sp, 4, 4);
            lemma_rest_after_rest_after(sp, 8, 4);
            lemma_rest_after_rest_after(sp, 12, 4);
        }
        if version >= 264 {
            // WotLK
            let base_spin = reader.read_u32_opt();
            let base_spin_variation = reader.read_u32_opt();
            let spin_speed = reader.read_u32_opt();
            let spin_speed_variation = reader.read_u32_opt();
            (None, base_spin, base_spin_variation, spin_speed, spin_speed_variation)
        } else {
            // Vanilla & TBC
            let legacy_spin = reader.read_u32_opt();
            (legacy_spin, None, None, None, None)
        }
    }

    /// Reads the tumble and wind vectors, the wind time, the follow values,
    /// the spline points and the enabled-in track; each one that the input
    /// does not reach takes its default.
    fn parse_motion(reader: &mut ByteCursor, version: u32) -> (r: (
        C3Vector,
        C3Vector,
        C3Vector,
        u32,
        u32,
        u32,
        u32,
        u32,
        M2Array,
        M2AnimationBlock,
    ))
        ensures
            final(reader).bytes() == old(reader).bytes(),
            final(reader).pos() <= final(reader).bytes().len(),
            final(reader).remaining() == rest_after(
                old(reader).remaining(),
                Self::motion_size(version),
            ),
            r == Self::motion_of(old(reader).remaining(), version),
    {
        reveal(M2ParticleEmitter::motion_of);
        let ghost w = reader.remaining();
        proof {
            lemma_rest_after_rest_after(w, 12, 12);
            lemma_rest_after_rest_after(w, 24, 12);
            lemma_rest_after_rest_after(w, 36, 4);
            lemma_rest_after_rest_after(w, 40, 4);
            lemma_rest_after_rest_after(w, 44, 4);
            lemma_rest_after_rest_after(w, 48, 4);
            lemma_rest_after_rest_after(w, 52, 4);
            lemma_rest_after_rest_after(w, 56, 8);
            lemma_rest_after_rest_after(w, 64, M2AnimationBlock::size_for(version));
        }
        let tumble_min = C3Vector::parse_or_zero(reader);
        let tumble_max = C3Vector::parse_or_zero(reader);
        let wind_vector = C3Vector::parse_or_zero(reader);
        let wind_time = reader.read_u32_or(0);
        let follow_speed1 = reader.read_u32_or(0);
        let follow_scale1 = reader.read_u32_or(0);
        let follow_speed2 = reader.read_u32_or(0);
        let follow_scale2 = reader.read_u32_or(0);
        let spline_points = M2Array::parse_or_empty(reader);
        let enabled_in = M2AnimationBlock::parse_or_zero_for(reader, version);
        (
            tumble_min,
            tumble_max,
            wind_vector,
            wind_time,
            follow_speed1,
            follow_scale1,
            follow_speed2,
            follow_scale2,
            spline_points,
            enabled_in,
        )
    }

    /// Reads the three values that close a Legion record.
    fn parse_closing(reader: &mut ByteCursor, version: u32) -> (r: Result<
        (Option<u32>, Option<u32>, Option<u32>),
        M2Error,
    >)
        requires
            old(reader).pos() <= old(reader).bytes().len(),
        ensures
            final(reader).bytes() == old(reader).bytes(),
            final(reader).pos() <= final(reader).bytes().len(),
            is_legion(version) ==> final(reader).remaining() == rest_after(
                old(reader).remaining(),
                12,
            ),
            !is_legion(version) ==> *final(reader) == *old(reader),
            (!is_legion(version) || old(reader).remaining().len() >= 12) ==> r == Ok::<_, M2Error>(
                Self::closing_of(old(reader).remaining(), version),
            ),
            (is_legion(version) && old(reader).remaining().len() < 12) ==> r == Err::<
                (Option<u32>, Option<u32>, Option<u32>),
                M2Error,
            >(M2Error::UnexpectedEof),
    {
        reveal(M2ParticleEmitter::closing_of);
        let ghost x = reader.remaining();
        proof {
            lemma_rest_after_rest_after(x, 4, 4);
            lemma_rest_after_rest_after(x, 8, 4);
            if x.len() >= 12 {
                assert(rest_after(x, 4) == x.skip(4));
                assert(rest_after(x, 8) == x.skip(8));
            }
        }
        if Self::legion_or_later(version) {
            let state = reader.read_u32_le()?;
            let variation = reader.read_u32_le()?;
            let convergence = reader.read_u32_le()?;
            Ok((Some(state), Some(variation), Some(convergence)))
        } else {
            Ok((None, None, None))
        }
    }

    /// Parse a particle emitter from a reader based on the M2 version.
    ///
    /// The header fields must all be there; each later field that the input
    /// does not reach takes its default, except the closing Legion fields,
    /// which must be there too. A field that the version does not have is
    /// absent; the child emitter filename (WotLK on) is read past before.
    pub fn parse(reader: &mut ByteCursor, version: u32) -> (r: Result<Self, M2Error>)
        ensures
            final(reader).bytes() == old(reader).bytes(),
            final(reader).pos() <= final(reader).bytes().len(),
            final(reader).remaining() == rest_after(
                old(reader).remaining(),
                Self::record_size(version),
            ),
            r == Self::parsed(old(reader).remaining(), version),
    {
        let ghost s = reader.remaining();
        let ghost b = Self::blending_at(version);
        let ghost h = Self::header_size(version);
        let ghost t = rest_after(s, h);
        let ghost f = rest_after(t, Self::tracks_size(version));
        let ghost q = rest_after(f, Self::fake_size(version));
        let ghost sp = rest_after(q, 28);
        let ghost w = rest_after(sp, Self::spin_size(version));
        let ghost x = rest_after(w, Self::motion_size(version));
        proof {
            let ht = h + Self::tracks_size(version);
            let hf = ht + Self::fake_size(version);
            let hs = hf + 28 + Self::spin_size(version);
            lemma_rest_after_rest_after(s, b, Self::kind_size(version));
            lemma_rest_after_rest_after(s, h - 6, 6);
            lemma_rest_after_rest_after(s, h, Self::tracks_size(version));
            lemma_rest_after_rest_after(s, ht, Self::fake_size(version));
            lemma_rest_after_rest_after(s, hf, 28);
            lemma_rest_after_rest_after(s, hf + 28, Self::spin_size(version));
            lemma_rest_after_rest_after(s, hs, Self::motion_size(version));
            lemma_rest_after_rest_after(s, hs + Self::motion_size(version), 12);
            lemma_rest_after_rest_after(x, 4, 4);
            lemma_rest_after_rest_after(x, 8, 4);
        }
        let (
            id,
            flags,
            position,
            bone_index,
            texture_indices,
            model_filename,
            child_emitter_filename,
            fallback_model_filename,
        ) = Self::parse_identity(reader, version)?;
        let (
            blending_type,
            emitter_type,
            particle_color_index,
            particle_type,
            head_or_tail,
            texture_file_data_ids,
            enable_encryption,
            multi_texture_param0,
            multi_texture_param1,
        ) = Self::parse_kind(reader, version)?;
        let (priority_plane, texture_dimensions_rows, texture_dimensions_columns) =
            Self::parse_dimensions(reader)?;
        let (
            emission_speed,
            speed_variation,
            vertical_range,
            horizontal_range,
            gravity,
            lifespan,
            lifespan_variation,
            emission_rate,
            emission_rate_variation,
            emission_area_width,
            emission_area_length,
            z_source,
        ) = Self::parse_tracks(reader, version);
        let (color_track, alpha_track, scale_track, scale_vary, head_uv_anim, tail_uv_anim) =
            Self::parse_fake_tracks(reader, version);
        let (
            tail_length,
            twinkle_speed,
            twinkle_percent,
            twinkle_scale_min,
            twinkle_scale_max,
            inherit_velocity_scale,
            drag,
        ) = Self::parse_render_params(reader);
        let (legacy_spin, base_spin, base_spin_variation, spin_speed, spin_speed_variation) =
            Self::parse_spin(reader, version);
        let (
            tumble_min,
            tumble_max,
            wind_vector,
            wind_time,
            follow_speed1,
            follow_scale1,
            follow_speed2,
            follow_scale2,
            spline_points,
            enabled_in,
        ) = Self::parse_motion(reader, version);
        // Legion+: initial state, its variation and the convergence time,
        // which must be there.
        let (particle_initial_state, particle_initial_state_variation, particle_convergence_time) =
            Self::parse_closing(reader, version)?;
        Ok(M2ParticleEmitter {
            id,
            flags,
            position,
            bone_index,
            texture_indices,
            model_filename,
            child_emitter_filename,
            blending_type,
            emitter_type,
            particle_color_index,
            particle_type,
            head_or_tail,
            priority_plane,
            texture_dimensions_rows,
            texture_dimensions_columns,
            emission_speed,
            speed_variation,
            vertical_range,
            horizontal_range,
            gravity,
            lifespan,
            lifespan_variation,
            emission_rate,
            emission_rate_variation,
            emission_area_width,
            emission_area_length,
            z_source,
            color_track,
            alpha_track,
            scale_track,
            scale_vary,
            head_uv_anim,
            tail_uv_anim,
            tail_length,
            twinkle_speed,
            twinkle_percent,
            twinkle_scale_min,
            twinkle_scale_max,
            inherit_velocity_scale,
            drag,
            legacy_spin,
            base_spin,
            base_spin_variation,
            spin_speed,
            spin_speed_variation,
            tumble_min,
            tumble_max,
            wind_vector,
            wind_time,
            follow_speed1,
            follow_scale1,
            follow_speed2,
            follow_scale2,
            spline_points,
            enabled_in,
            fallback_model_filename,
            texture_file_data_ids,
            enable_encryption,
            multi_texture_param0,
            multi_texture_param1,
            particle_initial_state,
            particle_initial_state_variation,
            particle_convergence_time,
        })
    }
    // -----------------------------------------------------------------------
    // Writing
    // -----------------------------------------------------------------------

    /// The child emitter filename as written: the empty reference when there is none.
    pub open spec fn child_or_empty(self) -> M2Array {
        match self.child_emitter_filename {
            Some(c) => c,
            None => M2Array { count: 0, offset: 0 },
        }
    }

    /// The identifier through the child emitter filename.
    pub open spec fn identity_bytes(self, version: u32) -> Seq<u8> {
        u32_bytes(self.id) + u32_bytes(self.flags.bits) + self.position.encode() + u16_bytes(
            self.bone_index,
        ) + u16_bytes(texture_raw_of(self.texture_indices, version))
            + self.model_filename.encode() + self.child_or_empty().encode()
    }

    /// The blending type through the head-or-tail byte.
    pub open spec fn kind_bytes(self, version: u32) -> Seq<u8> {
        (if is_late_tbc(version) {
            seq![self.blending_type, self.emitter_type.code()] + u16_bytes(
                match self.particle_color_index {
                    Some(c) => c,
                    None => 0,
                },
            )
        } else {
            u16_bytes(self.blending_type as u16) + u16_bytes(self.emitter_type.code() as u16)
        }) + if is_cata(version) {
            seq![0u8, 0u8]
        } else {
            seq![self.particle_type, self.head_or_tail]
        }
    }

    /// The priority plane and the texture dimensions.
    pub open spec fn dimensions_bytes(self) -> Seq<u8> {
        u16_bytes(bits_of_i16(self.priority_plane)) + u16_bytes(self.texture_dimensions_rows)
            + u16_bytes(self.texture_dimensions_columns)
    }

    /// A value that is written as `0.0` when it is absent.
    pub open spec fn bits_or_zero(v: Option<u32>) -> u32 {
        match v {
            Some(x) => x,
            None => 0,
        }
    }

    /// The first six tracks: emission speed through lifespan.
    pub open spec fn lead_tracks_bytes(self, version: u32) -> Seq<u8> {
        self.emission_speed.encode_for(version) + self.speed_variation.encode_for(version)
            + self.vertical_range.encode_for(version) + self.horizontal_range.encode_for(version)
            + self.gravity.encode_for(version) + self.lifespan.encode_for(version)
    }

    /// The emission rate, between the two variations that WotLK adds.
    pub open spec fn rate_bytes(self, version: u32) -> Seq<u8> {
        if is_wotlk(version) {
            u32_bytes(Self::bits_or_zero(self.lifespan_variation)) + self.emission_rate.encode_for(
                version,
            ) + u32_bytes(Self::bits_or_zero(self.emission_rate_variation))
        } else {
            self.emission_rate.encode_for(version)
        }
    }

    /// The emission area width and length, and the Z source.
    pub open spec fn area_bytes(self, version: u32) -> Seq<u8> {
        self.emission_area_width.encode_for(version) + self.emission_area_length.encode_for(
            version,
        ) + self.z_source.encode_for(version)
    }

    /// The twelve tracks and, from WotLK on, the two variations among them.
    pub open spec fn tracks_bytes(self, version: u32) -> Seq<u8> {
        self.lead_tracks_bytes(version) + self.rate_bytes(version) + self.area_bytes(version)
    }

    /// The fake tracks and the scale variation from WotLK on; 48 zero bytes before.
    pub open spec fn fake_bytes(self, version: u32) -> Seq<u8> {
        if is_wotlk(version) {
            self.color_track.encode() + self.alpha_track.encode() + self.scale_track.encode()
                + self.scale_vary.encode() + self.head_uv_anim.encode()
                + self.tail_uv_anim.encode()
        } else {
            Seq::new(48, |i: int| 0u8)
        }
    }

    /// The seven render parameters.
    pub open spec fn params_bytes(self) -> Seq<u8> {
        u32_bytes(self.tail_length) + u32_bytes(self.twinkle_speed) + u32_bytes(
            self.twinkle_percent,
        ) + u32_bytes(self.twinkle_scale_min) + u32_bytes(self.twinkle_scale_max) + u32_bytes(
            self.inherit_velocity_scale,
        ) + u32_bytes(self.drag)
    }

    /// The spin values: four from WotLK on, the legacy spin before.
    pub open spec fn spin_bytes(self, version: u32) -> Seq<u8> {
        if is_wotlk(version) {
            u32_bytes(Self::bits_or_zero(self.base_spin)) + u32_bytes(
                Self::bits_or_zero(self.base_spin_variation),
            ) + u32_bytes(Self::bits_or_zero(self.spin_speed)) + u32_bytes(
                Self::bits_or_zero(self.spin_speed_variation),
            )
        } else {
            u32_bytes(Self::bits_or_zero(self.legacy_spin))
        }
    }

    /// The vectors, the wind time, the follow values, the spline points and
    /// the enabled-in track.
    pub open spec fn motion_bytes(self, version: u32) -> Seq<u8> {
        self.tumble_min.encode() + self.tumble_max.encode() + self.wind_vector.encode()
            + u32_bytes(self.wind_time) + u32_bytes(self.follow_speed1) + u32_bytes(
            self.follow_scale1,
        ) + u32_bytes(self.follow_speed2) + u32_bytes(self.follow_scale2)
            + self.spline_points.encode() + self.enabled_in.encode_for(version)
    }

    /// The bytes that `write` appends for `version`. The fields that Legion,
    /// WoD and BfA add are not written.
    pub open spec fn encode(self, version: u32) -> Seq<u8> {
        self.identity_bytes(version) + self.kind_bytes(version) + self.dimensions_bytes()
            + self.tracks_bytes(version) + self.fake_bytes(version) + self.params_bytes()
            + self.spin_bytes(version) + self.motion_bytes(version)
    }

    /// The number of bytes that `write` appends for `version`.
    pub open spec fn written_size(version: u32) -> int {
        52 + Self::tracks_size(version) + Self::fake_size(version) + 28 + Self::spin_size(version)
            + Self::motion_size(version)
    }

    fn write_identity(&self, writer: &mut Vec<u8>, version: u32)
        ensures
            final(writer)@ == old(writer)@ + self.identity_bytes(version),
    {
        push_u32_le(writer, self.id);
        push_u32_le(writer, self.flags.bits());
        self.position.write(writer);
        push_u16_le(writer, self.bone_index);
        // Texture indices packing
        let texture_index_raw = if version >= 272 {
            self.texture_indices[0] | (self.texture_indices[1] << 5u16) | (self.texture_indices[2]
                << 10u16)
        } else {
            self.texture_indices[0]
        };
        push_u16_le(writer, texture_index_raw);
        self.model_filename.write(writer);
        match self.child_emitter_filename {
            Some(child) => child.write(writer),
            None => M2Array::new(0, 0).write(writer),
        }
        assert(writer@ =~= old(writer)@ + self.identity_bytes(version));
    }

    fn write_kind(&self, writer: &mut Vec<u8>, version: u32)
        ensures
            final(writer)@ == old(writer)@ + self.kind_bytes(version),
    {
        if version >= 262 {
            writer.push(self.blending_type);
            writer.push(self.emitter_type.to_u8());
            let color = match self.particle_color_index {
                Some(c) => c,
                None => 0,
            };
            push_u16_le(writer, color);
        } else {
            push_u16_le(writer, self.blending_type as u16);
            push_u16_le(writer, self.emitter_type.to_u8() as u16);
        }
        if version >= 272 {
            // Cataclysm+: the multi-texture scales are not kept; zero is written.
            writer.push(0);
            writer.push(0);
        } else {
            writer.push(self.particle_type);
            writer.push(self.head_or_tail);
        }
        assert(writer@ =~= old(writer)@ + self.kind_bytes(version));
    }

    fn write_dimensions(&self, writer: &mut Vec<u8>)
        ensures
            final(writer)@ == old(writer)@ + self.dimensions_bytes(),
    {
        push_u16_le(writer, i16_to_bits(self.priority_plane));
        push_u16_le(writer, self.texture_dimensions_rows);
        push_u16_le(writer, self.texture_dimensions_columns);
        assert(writer@ =~= old(writer)@ + self.dimensions_bytes());
    }

    fn write_tracks(&self, writer: &mut Vec<u8>, version: u32)
        ensures
            final(writer)@ == old(writer)@ + self.tracks_bytes(version),
    {
        let ghost w0 = writer@;
        self.emission_speed.write_for(writer, version);
        self.speed_variation.write_for(writer, version);
        self.vertical_range.write_for(writer, version);
        self.horizontal_range.write_for(writer, version);
        self.gravity.write_for(writer, version);
        self.lifespan.write_for(writer, version);
        assert(writer@ =~= w0 + self.lead_tracks_bytes(version));
        let ghost w1 = writer@;
        if version >= 264 {
            push_u32_le(writer, Self::or_zero(self.lifespan_variation));
            self.emission_rate.write_for(writer, version);
            push_u32_le(writer, Self::or_zero(self.emission_rate_variation));
        } else {
            self.emission_rate.write_for(writer, version);
        }
        assert(writer@ =~= w1 + self.rate_bytes(version));
        let ghost w2 = writer@;
        self.emission_area_width.write_for(writer, version);
        self.emission_area_length.write_for(writer, version);
        self.z_source.write_for(writer, version);
        assert(writer@ =~= w2 + self.area_bytes(version));
        proof {
            lemma_concat_assoc(w0, self.lead_tracks_bytes(version), self.rate_bytes(version));
            lemma_concat_assoc(
                w0,
                self.lead_tracks_bytes(version) + self.rate_bytes(version),
                self.area_bytes(version),
            );
        }
    }

    /// The value of `v`, or `0.0` when absent.
    fn or_zero(v: Option<u32>) -> (r: u32)
        ensures
            r == Self::bits_or_zero(v),
    {
        match v {
            Some(x) => x,
            None => 0,
        }
    }

    fn write_fake_tracks(&self, writer: &mut Vec<u8>, version: u32)
        ensures
            final(writer)@ == old(writer)@ + self.fake_bytes(version),
    {
        if version >= 264 {
            self.color_track.write(writer);
            self.alpha_track.write(writer);
            self.scale_track.write(writer);
            self.scale_vary.write(writer);
            self.head_uv_anim.write(writer);
            self.tail_uv_anim.write(writer);
        } else {
            // The 48 bytes that stand for the fake tracks before WotLK.
            let mut i: usize = 0;
            while i < 48
                invariant
                    i <= 48,
                    writer@ == old(writer)@ + Seq::new(i as nat, |j: int| 0u8),
                decreases 48 - i,
            {
                writer.push(0);
                i = i + 1;
                assert(writer@ =~= old(writer)@ + Seq::new(i as nat, |j: int| 0u8));
            }
        }
        assert(writer@ =~= old(writer)@ + self.fake_bytes(version));
    }

    fn write_params(&self, writer: &mut Vec<u8>)
        ensures
            final(writer)@ == old(writer)@ + self.params_bytes(),
    {
        push_u32_le(writer, self.tail_length);
        push_u32_le(writer, self.twinkle_speed);
        push_u32_le(writer, self.twinkle_percent);
        push_u32_le(writer, self.twinkle_scale_min);
        push_u32_le(writer, self.twinkle_scale_max);
        push_u32_le(writer, self.inherit_velocity_scale);
        push_u32_le(writer, self.drag);
        assert(writer@ =~= old(writer)@ + self.params_bytes());
    }

    fn write_spin(&self, writer: &mut Vec<u8>, version: u32)
        ensures
            final(writer)@ == old(writer)@ + self.spin_bytes(version),
    {
        if version >= 264 {
            push_u32_le(writer, Self::or_zero(self.base_spin));
            push_u32_le(writer, Self::or_zero(self.base_spin_variation));
            push_u32_le(writer, Self::or_zero(self.spin_speed));
            push_u32_le(writer, Self::or_zero(self.spin_speed_variation));
        } else {
            push_u32_le(writer, Self::or_zero(self.legacy_spin));
        }
        assert(writer@ =~= old(writer)@ + self.spin_bytes(version));
    }

    fn write_motion(&self, writer: &mut Vec<u8>, version: u32)
        ensures
            final(writer)@ == old(writer)@ + self.motion_bytes(version),
    {
        self.tumble_min.write(writer);
        self.tumble_max.write(writer);
        self.wind_vector.write(writer);
        push_u32_le(writer, self.wind_time);
        push_u32_le(writer, self.follow_speed1);
        push_u32_le(writer, self.follow_scale1);
        push_u32_le(writer, self.follow_speed2);
        push_u32_le(writer, self.follow_scale2);
        self.spline_points.write(writer);
        self.enabled_in.write_for(writer, version);
        assert(writer@ =~= old(writer)@ + self.motion_bytes(version));
    }

    /// Write a particle emitter based on the M2 version: the layout of that
    /// version, without the fields that Legion, WoD and BfA add.
    pub fn write(&self, writer: &mut Vec<u8>, version: u32)
        ensures
            final(writer)@ == old(writer)@ + self.encode(version),
    {
        let ghost w0 = writer@;
        let ghost a = self.identity_bytes(version);
        let ghost b = self.kind_bytes(version);
        let ghost c = self.dimensions_bytes();
        let ghost d = self.tracks_bytes(version);
        let ghost e = self.fake_bytes(version);
        let ghost f = self.params_bytes();
        let ghost g = self.spin_bytes(version);
        self.write_identity(writer, version);
        self.write_kind(writer, version);
        proof {
            lemma_concat_assoc(w0, a, b);
        }
        self.write_dimensions(writer);
        proof {
            lemma_concat_assoc(w0, a + b, c);
        }
        self.write_tracks(writer, version);
        proof {
            lemma_concat_assoc(w0, a + b + c, d);
        }
        self.write_fake_tracks(writer, version);
        proof {
            lemma_concat_assoc(w0, a + b + c + d, e);
        }
        self.write_params(writer);
        proof {
            lemma_concat_assoc(w0, a + b + c + d + e, f);
        }
        self.write_spin(writer, version);
        proof {
            lemma_concat_assoc(w0, a + b + c + d + e + f, g);
        }
        self.write_motion(writer, version);
        proof {
            lemma_concat_assoc(w0, a + b + c + d + e + f + g, self.motion_bytes(version));
        }
    }

    // -----------------------------------------------------------------------
    // Converting between versions
    // -----------------------------------------------------------------------

    /// The emitter that `convert` gives for `target`: the same emitter, where
    /// each field that a later version adds is filled in with its zero value
    /// when `target` has that field and it is missing, and dropped when
    /// `target` does not have it.
    pub open spec fn converted(self, target: M2Version) -> Self {
        let legion = target.is_at_least(M2Version::Legion);
        let wod = target.is_at_least(M2Version::WoD);
        let bfa = target.is_at_least(M2Version::BfA);
        M2ParticleEmitter {
            fallback_model_filename: fill_or_drop(
                self.fallback_model_filename,
                legion,
                M2Array { count: 0, offset: 0 },
            ),
            texture_file_data_ids: fill_or_drop(
                self.texture_file_data_ids,
                legion,
                M2Array { count: 0, offset: 0 },
            ),
            enable_encryption: fill_or_drop(self.enable_encryption, wod, 0u8),
            multi_texture_param0: fill_or_drop(self.multi_texture_param0, bfa, [0u8, 0u8, 0u8, 0u8]),
            multi_texture_param1: fill_or_drop(self.multi_texture_param1, bfa, [0u8, 0u8, 0u8, 0u8]),
            particle_initial_state: fill_or_drop(self.particle_initial_state, legion, 0u32),
            particle_initial_state_variation: fill_or_drop(
                self.particle_initial_state_variation,
                legion,
                0u32,
            ),
            particle_convergence_time: fill_or_drop(self.particle_convergence_time, legion, 0u32),
            ..self
        }
    }

    /// Convert this particle emitter to a different version.
    pub fn convert(&self, target_version: M2Version) -> (r: Self)
        ensures
            r == self.converted(target_version),
    {
        let legion = target_version.at_least(M2Version::Legion);
        let wod = target_version.at_least(M2Version::WoD);
        let bfa = target_version.at_least(M2Version::BfA);
        let mut new_emitter = *self;
        // Legion and later carry the fallback model filename, the texture
        // file data ids and the three initial-state values; add each one
        // that is missing, or remove them all when going below Legion.
        new_emitter.fallback_model_filename = fill_or_drop_exec(
            self.fallback_model_filename,
            legion,
            M2Array::new(0, 0),
        );
        new_emitter.texture_file_data_ids = fill_or_drop_exec(
            self.texture_file_data_ids,
            legion,
            M2Array::new(0, 0),
        );
        new_emitter.particle_initial_state = fill_or_drop_exec(
            self.particle_initial_state,
            legion,
            0u32,
        );
        new_emitter.particle_initial_state_variation = fill_or_drop_exec(
            self.particle_initial_state_variation,
            legion,
            0u32,
        );
        new_emitter.particle_convergence_time = fill_or_drop_exec(
            self.particle_convergence_time,
            legion,
            0u32,
        );
        // WoD and later carry the encryption flag.
        new_emitter.enable_encryption = fill_or_drop_exec(self.enable_encryption, wod, 0u8);
        // BfA and later carry both multi-texture parameters.
        new_emitter.multi_texture_param0 = fill_or_drop_exec(
            self.multi_texture_param0,
            bfa,
            [0u8, 0u8, 0u8, 0u8],
        );
        new_emitter.multi_texture_param1 = fill_or_drop_exec(
            self.multi_texture_param1,
            bfa,
            [0u8, 0u8, 0u8, 0u8],
        );
        new_emitter
    }

    /// Converting twice to the same version changes nothing more than
    /// converting once.
    pub proof fn lemma_convert_idempotent(self, target: M2Version)
        ensures
            self.converted(target).converted(target) == self.converted(target),
    {
    }

    /// After a conversion, each field that a later version adds is present
    /// exactly when the target version has it; a field that was present and
    /// that the target has keeps its value, and one that was missing takes
    /// its zero value.
    pub proof fn lemma_convert_matches_target(self, target: M2Version)
        ensures
            ({
                let r = self.converted(target);
                let legion = target.is_at_least(M2Version::Legion);
                let wod = target.is_at_least(M2Version::WoD);
                let bfa = target.is_at_least(M2Version::BfA);
                &&& r.fallback_model_filename is Some <==> legion
                &&& r.texture_file_data_ids is Some <==> legion
                &&& r.particle_initial_state is Some <==> legion
                &&& r.particle_initial_state_variation is Some <==> legion
                &&& r.particle_convergence_time is Some <==> legion
                &&& r.enable_encryption is Some <==> wod
                &&& r.multi_texture_param0 is Some <==> bfa
                &&& r.multi_texture_param1 is Some <==> bfa
                &&& (legion && self.fallback_model_filename is Some) ==> r.fallback_model_filename
                    == self.fallback_model_filename
                &&& (legion && self.texture_file_data_ids is Some) ==> r.texture_file_data_ids
                    == self.texture_file_data_ids
                &&& (legion && self.particle_initial_state is Some) ==> r.particle_initial_state
                    == self.particle_initial_state
                &&& (legion && self.particle_initial_state_variation is Some)
                    ==> r.particle_initial_state_variation == self.particle_initial_state_variation
                &&& (legion && self.particle_convergence_time is Some)
                    ==> r.particle_convergence_time == self.particle_convergence_time
                &&& (wod && self.enable_encryption is Some) ==> r.enable_encryption
                    == self.enable_encryption
                &&& (bfa && self.multi_texture_param0 is Some) ==> r.multi_texture_param0
                    == self.multi_texture_param0
                &&& (bfa && self.multi_texture_param1 is Some) ==> r.multi_texture_param1
                    == self.multi_texture_param1
                &&& (legion && self.fallback_model_filename is None) ==> r.fallback_model_filename
                    == Some(M2Array { count: 0, offset: 0 })
                &&& (legion && self.texture_file_data_ids is None) ==> r.texture_file_data_ids
                    == Some(M2Array { count: 0, offset: 0 })
                &&& (legion && self.particle_initial_state is None) ==> r.particle_initial_state
                    == Some(0u32)
                &&& (legion && self.particle_initial_state_variation is None)
                    ==> r.particle_initial_state_variation == Some(0u32)
                &&& (legion && self.particle_convergence_time is None)
                    ==> r.particle_convergence_time == Some(0u32)
                &&& (wod && self.enable_encryption is None) ==> r.enable_encryption == Some(0u8)
                &&& (bfa && self.multi_texture_param0 is None) ==> r.multi_texture_param0 == Some(
                    [0u8, 0u8, 0u8, 0u8],
                )
                &&& (bfa && self.multi_texture_param1 is None) ==> r.multi_texture_param1 == Some(
                    [0u8, 0u8, 0u8, 0u8],
                )
            }),
    {
    }
    /// Converting keeps every field other than the eight that later versions
    /// add: the emitter type, the tracks, the render parameters and all the
    /// rest are those of the emitter converted, whatever the target.
    pub proof fn lemma_convert_keeps_the_rest(self, target: M2Version)
        ensures
            ({
                let r = self.converted(target);
                &&& r.id == self.id
                &&& r.flags == self.flags
                &&& r.position == self.position
                &&& r.bone_index == self.bone_index
                &&& r.texture_indices == self.texture_indices
                &&& r.model_filename == self.model_filename
                &&& r.child_emitter_filename == self.child_emitter_filename
                &&& r.blending_type == self.blending_type
                &&& r.emitter_type == self.emitter_type
                &&& r.particle_color_index == self.particle_color_index
                &&& r.particle_type == self.particle_type
                &&& r.head_or_tail == self.head_or_tail
                &&& r.priority_plane == self.priority_plane
                &&& r.texture_dimensions_rows == self.texture_dimensions_rows
                &&& r.texture_dimensions_columns == self.texture_dimensions_columns
                &&& r.emission_speed == self.emission_speed
                &&& r.speed_variation == self.speed_variation
                &&& r.vertical_range == self.vertical_range
                &&& r.horizontal_range == self.horizontal_range
                &&& r.gravity == self.gravity
                &&& r.lifespan == self.lifespan
                &&& r.lifespan_variation == self.lifespan_variation
                &&& r.emission_rate == self.emission_rate
                &&& r.emission_rate_variation == self.emission_rate_variation
                &&& r.emission_area_width == self.emission_area_width
                &&& r.emission_area_length == self.emission_area_length
                &&& r.z_source == self.z_source
                &&& r.color_track == self.color_track
                &&& r.alpha_track == self.alpha_track
                &&& r.scale_track == self.scale_track
                &&& r.scale_vary == self.scale_vary
                &&& r.head_uv_anim == self.head_uv_anim
                &&& r.tail_uv_anim == self.tail_uv_anim
                &&& r.tail_length == self.tail_length
                &&& r.twinkle_speed == self.twinkle_speed
                &&& r.twinkle_percent == self.twinkle_percent
                &&& r.twinkle_scale_min == self.twinkle_scale_min
                &&& r.twinkle_scale_max == self.twinkle_scale_max
                &&& r.inherit_velocity_scale == self.inherit_velocity_scale
                &&& r.drag == self.drag
                &&& r.legacy_spin == self.legacy_spin
                &&& r.base_spin == self.base_spin
                &&& r.base_spin_variation == self.base_spin_variation
                &&& r.spin_speed == self.spin_speed
                &&& r.spin_speed_variation == self.spin_speed_variation
                &&& r.tumble_min == self.tumble_min
                &&& r.tumble_max == self.tumble_max
                &&& r.wind_vector == self.wind_vector
                &&& r.wind_time == self.wind_time
                &&& r.follow_speed1 == self.follow_speed1
                &&& r.follow_scale1 == self.follow_scale1
                &&& r.follow_speed2 == self.follow_speed2
                &&& r.follow_scale2 == self.follow_scale2
                &&& r.spline_points == self.spline_points
                &&& r.enabled_in == self.enabled_in
            }),
    {
    }
}

/// A field that a later version adds, as `convert` leaves it: the zero value
/// when the target has the field and it is missing, nothing when the target
/// does not have it, and the field as it was otherwise.
pub open spec fn fill_or_drop<T>(field: Option<T>, target_has: bool, zero: T) -> Option<T> {
    if !target_has {
        None
    } else if field is None {
        Some(zero)
    } else {
        field
    }
}

fn fill_or_drop_exec<T>(field: Option<T>, target_has: bool, zero: T) -> (r: Option<T>)
    ensures
        r == fill_or_drop(field, target_has, zero),
{
    if !target_has {
        None
    } else if field.is_none() {
        Some(zero)
    } else {
        field
    }
}

} // verus!
