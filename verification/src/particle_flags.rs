//! The flags of a particle emitter.
use vstd::prelude::*;

verus! {

/// Particle flags as defined in the M2 format: a set of bits, unknown bits kept.
#[derive(Debug, Clone, Copy, PartialEq, Eq, Structural)]
pub struct M2ParticleFlags {
    pub bits: u32,
}

impl M2ParticleFlags {
    /// Identifies that this particle has a position.
    #[allow(non_snake_case)]
    pub fn HAS_POSITION() -> (r: Self)
        ensures
            r.bits == 0x00000001,
    {
        M2ParticleFlags { bits: 0x00000001 }
    }

    /// Particles are billboarded
    #[allow(non_snake_case)]
    pub fn BILLBOARDED() -> (r: Self)
        ensures
            r.bits == 0x00000008,
    {
        M2ParticleFlags { bits: 0x00000008 }
    }

    /// Particles stretch based on their velocity
    #[allow(non_snake_case)]
    pub fn AFFECTED_BY_VELOCITY() -> (r: Self)
        ensures
            r.bits == 0x00000010,
    {
        M2ParticleFlags { bits: 0x00000010 }
    }

    /// Particles rotate around their central point
    #[allow(non_snake_case)]
    pub fn ROTATING() -> (r: Self)
        ensures
            r.bits == 0x00000020,
    {
        M2ParticleFlags { bits: 0x00000020 }
    }

    /// Particles use random texture coordinate generation
    #[allow(non_snake_case)]
    pub fn RANDOMIZED() -> (r: Self)
        ensures
            r.bits == 0x00000040,
    {
        M2ParticleFlags { bits: 0x00000040 }
    }

    /// Particles use tiling
    #[allow(non_snake_case)]
    pub fn TILED() -> (r: Self)
        ensures
            r.bits == 0x00000080,
    {
        M2ParticleFlags { bits: 0x00000080 }
    }

    /// A plane emitter should be treated as a sphere emitter
    #[allow(non_snake_case)]
    pub fn SPHERE_AS_SOURCE() -> (r: Self)
        ensures
            r.bits == 0x00000100,
    {
        M2ParticleFlags { bits: 0x00000100 }
    }

    /// The center of the sphere should be used as the source of the particles
    #[allow(non_snake_case)]
    pub fn USE_SPHERE_CENTER() -> (r: Self)
        ensures
            r.bits == 0x00000200,
    {
        M2ParticleFlags { bits: 0x00000200 }
    }

    /// Enable lighting for particles
    #[allow(non_snake_case)]
    pub fn LIGHTING() -> (r: Self)
        ensures
            r.bits == 0x00000400,
    {
        M2ParticleFlags { bits: 0x00000400 }
    }

    /// Use a Z-buffer test for particles
    #[allow(non_snake_case)]
    pub fn ZBUFFER_TEST() -> (r: Self)
        ensures
            r.bits == 0x00000800,
    {
        M2ParticleFlags { bits: 0x00000800 }
    }

    /// Use particle bounds for culling
    #[allow(non_snake_case)]
    pub fn BOUND_TO_EMITTER() -> (r: Self)
        ensures
            r.bits == 0x00001000,
    {
        M2ParticleFlags { bits: 0x00001000 }
    }

    /// Particles follow their emitter
    #[allow(non_snake_case)]
    pub fn FOLLOW_EMITTER() -> (r: Self)
        ensures
            r.bits == 0x00002000,
    {
        M2ParticleFlags { bits: 0x00002000 }
    }

    /// Unknown, used in the Deeprun Tram subway
    #[allow(non_snake_case)]
    pub fn UNKNOWN_0x4000() -> (r: Self)
        ensures
            r.bits == 0x00004000,
    {
        M2ParticleFlags { bits: 0x00004000 }
    }

    /// Unknown, used in the Deeprun Tram subway
    #[allow(non_snake_case)]
    pub fn UNKNOWN_0x8000() -> (r: Self)
        ensures
            r.bits == 0x00008000,
    {
        M2ParticleFlags { bits: 0x00008000 }
    }

    /// Unknown, used in the character display window
    #[allow(non_snake_case)]
    pub fn UNKNOWN_0x10000() -> (r: Self)
        ensures
            r.bits == 0x00010000,
    {
        M2ParticleFlags { bits: 0x00010000 }
    }

    /// Random spawn position
    #[allow(non_snake_case)]
    pub fn RANDOM_SPAWN_POSITION() -> (r: Self)
        ensures
            r.bits == 0x00020000,
    {
        M2ParticleFlags { bits: 0x00020000 }
    }

    /// Particles stretch based on particle size
    #[allow(non_snake_case)]
    pub fn PINNED() -> (r: Self)
        ensures
            r.bits == 0x00040000,
    {
        M2ParticleFlags { bits: 0x00040000 }
    }

    /// Use XYZ rotation instead of just Z
    #[allow(non_snake_case)]
    pub fn XYZ_ROTATION() -> (r: Self)
        ensures
            r.bits == 0x00080000,
    {
        M2ParticleFlags { bits: 0x00080000 }
    }

    /// Unknown, was added in WoD (6.x)
    #[allow(non_snake_case)]
    pub fn UNKNOWN_WOD() -> (r: Self)
        ensures
            r.bits == 0x00100000,
    {
        M2ParticleFlags { bits: 0x00100000 }
    }

    /// Use physics settings for particles
    #[allow(non_snake_case)]
    pub fn PHYSICS() -> (r: Self)
        ensures
            r.bits == 0x00200000,
    {
        M2ParticleFlags { bits: 0x00200000 }
    }

    /// Pinned on the Y axis instead of both XY
    #[allow(non_snake_case)]
    pub fn FIXED_Y() -> (r: Self)
        ensures
            r.bits == 0x00400000,
    {
        M2ParticleFlags { bits: 0x00400000 }
    }

    /// The flags whose bits are `bits`, unknown bits included.
    pub fn from_bits_retain(bits: u32) -> (r: Self)
        ensures
            r.bits == bits,
    {
        M2ParticleFlags { bits }
    }

    /// The bits of the flags.
    pub fn bits(&self) -> (r: u32)
        ensures
            r == self.bits,
    {
        self.bits
    }

    /// Whether every flag of `other` is set in `self`.
    pub fn contains(&self, other: Self) -> (r: bool)
        ensures
            r == (self.bits & other.bits == other.bits),
    {
        self.bits & other.bits == other.bits
    }
}

impl vstd::std_specs::ops::BitOrSpecImpl for M2ParticleFlags {
    open spec fn obeys_bitor_spec() -> bool {
        true
    }

    open spec fn bitor_req(self, other: Self) -> bool {
        true
    }

    open spec fn bitor_spec(self, other: Self) -> Self {
        M2ParticleFlags { bits: self.bits | other.bits }
    }
}

impl core::ops::BitOr for M2ParticleFlags {
    type Output = Self;

    /// The flags set in either.
    fn bitor(self, other: Self) -> (r: Self)
        ensures
            r.bits == self.bits | other.bits,
    {
        M2ParticleFlags { bits: self.bits | other.bits }
    }
}


/// Every flag of either operand is set in their union.
pub proof fn lemma_union_contains(a: M2ParticleFlags, b: M2ParticleFlags)
    ensures
        (a.bits | b.bits) & a.bits == a.bits,
        (a.bits | b.bits) & b.bits == b.bits,
{
    let x = a.bits;
    let y = b.bits;
    assert((x | y) & x == x && (x | y) & y == y) by (bit_vector);
}

} // verus!
