//! Texture animations: the scroll, rotation and scale tracks of a texture.
use vstd::prelude::*;

use crate::animation::{reads_track_at, track_bytes, M2AnimationBlock};
use crate::codec::{lemma_rest_after_rest_after, rest_after, ByteCursor};
use crate::error::M2Error;
use crate::version::M2Version;

verus! {

/// How a texture is animated.
#[derive(Debug, Clone, Copy, PartialEq, Eq, Structural)]
pub enum M2TextureAnimationType {
    /// No animation
    NoAnimation,
    /// Scroll animation
    Scroll,
    /// Rotate animation
    Rotate,
    /// Scale animation
    Scale,
    /// Key frame animation
    KeyFrame,
}

impl M2TextureAnimationType {
    /// The number that stands for the type in a file.
    pub open spec fn code(self) -> u16 {
        match self {
            M2TextureAnimationType::NoAnimation => 0,
            M2TextureAnimationType::Scroll => 1,
            M2TextureAnimationType::Rotate => 2,
            M2TextureAnimationType::Scale => 3,
            M2TextureAnimationType::KeyFrame => 4,
        }
    }

    /// Each type has its own code, below 5.
    pub proof fn lemma_code(self, other: Self)
        ensures
            self.code() < 5,
            self.code() == other.code() ==> self == other,
    {
    }

    /// The type that `value` stands for: the one whose code it is, if any.
    pub fn from_u16(value: u16) -> (r: Option<Self>)
        ensures
            r is Some <==> value < 5,
            r matches Some(t) ==> t.code() == value,
    {
        match value {
            0 => Some(Self::NoAnimation),
            1 => Some(Self::Scroll),
            2 => Some(Self::Rotate),
            3 => Some(Self::Scale),
            4 => Some(Self::KeyFrame),
            _ => None,
        }
    }
}

/// The three tracks that animate a texture (sixty bytes).
#[derive(Debug, Clone, Copy, PartialEq, Eq, Structural)]
pub struct M2TextureAnimation {
    /// Translation animation (3D vectors)
    pub translation: M2AnimationBlock,
    /// Rotation animation (quaternions)
    pub rotation: M2AnimationBlock,
    /// Scale animation (3D vectors)
    pub scale: M2AnimationBlock,
}

impl M2TextureAnimation {
    /// The number of bytes of a texture animation.
    pub open spec fn size() -> int {
        60
    }

    /// The texture animation at the start of `s`.
    pub open spec fn decode(s: Seq<u8>) -> Self {
        M2TextureAnimation {
            translation: M2AnimationBlock::decode(s),
            rotation: M2AnimationBlock::decode(s.skip(20)),
            scale: M2AnimationBlock::decode(s.skip(40)),
        }
    }

    /// The sixty bytes that stand for `self`.
    pub open spec fn encode(self) -> Seq<u8> {
        self.translation.encode() + self.rotation.encode() + self.scale.encode()
    }

    /// What `parse` gives for the bytes `s`: the animation when `s` holds its
    /// sixty bytes, an end-of-input error otherwise.
    pub open spec fn parsed(s: Seq<u8>) -> Result<Self, M2Error> {
        if s.len() >= Self::size() {
            Ok(Self::decode(s))
        } else {
            Err(M2Error::UnexpectedEof)
        }
    }

    /// Reads the three tracks, in the order translation, rotation, scale.
    pub fn parse(reader: &mut ByteCursor) -> (r: Result<Self, M2Error>)
        ensures
            final(reader).bytes() == old(reader).bytes(),
            final(reader).pos() <= final(reader).bytes().len(),
            final(reader).remaining() == rest_after(old(reader).remaining(), Self::size()),
            r == Self::parsed(old(reader).remaining()),
    {
        let ghost s = reader.remaining();
        proof {
            lemma_rest_after_rest_after(s, 20, 20);
            lemma_rest_after_rest_after(s, 40, 20);
        }
        let translation = M2AnimationBlock::parse(reader)?;
        let rotation = M2AnimationBlock::parse(reader)?;
        let scale = M2AnimationBlock::parse(reader)?;
        proof {
            if s.len() >= 60 {
                assert(s.skip(20).skip(20) =~= s.skip(40));
            }
        }
        Ok(Self { translation, rotation, scale })
    }

    /// Appends the sixty bytes of the animation.
    pub fn write(&self, writer: &mut Vec<u8>)
        ensures
            final(writer)@ == old(writer)@ + self.encode(),
    {
        self.translation.write(writer);
        self.rotation.write(writer);
        self.scale.write(writer);
        assert(writer@ =~= old(writer)@ + self.encode());
    }

    /// An animation whose three tracks are zero.
    pub fn new() -> (r: Self)
        ensures
            r.translation == M2AnimationBlock::zero(),
            r.rotation == M2AnimationBlock::zero(),
            r.scale == M2AnimationBlock::zero(),
    {
        Self::default()
    }

    /// The animation for another version of the format; no version changes it.
    pub fn convert(&self, _target_version: M2Version) -> (r: Self)
        ensures
            r == *self,
    {
        *self
    }

    /// Writing an animation whose tracks carry no interpolation ranges (the
    /// twenty-byte track layout holds none) and reading the bytes back gives
    /// the same animation, and the read consumes exactly the sixty bytes
    /// written.
    pub proof fn lemma_write_then_parse(self, rest: Seq<u8>)
        requires
            self.translation.interpolation_ranges is None,
            self.rotation.interpolation_ranges is None,
            self.scale.interpolation_ranges is None,
        ensures
            Self::parsed(self.encode() + rest) == Ok::<Self, M2Error>(self),
            rest_after(self.encode() + rest, Self::size()) == rest,
            self.encode().len() == Self::size(),
    {
        let a = self.translation.encode();
        let b = self.rotation.encode();
        let c = self.scale.encode();
        let s = self.encode() + rest;
        self.translation.lemma_roundtrip(b + c + rest);
        self.rotation.lemma_roundtrip(c + rest);
        self.scale.lemma_roundtrip(rest);
        assert(s =~= a + (b + c + rest));
        assert(s.skip(20) =~= b + (c + rest));
        assert(s.skip(40) =~= c + rest);
        assert(s.skip(60) =~= rest);
        assert(self.encode() + Seq::empty() =~= self.encode());
        self.scale.lemma_roundtrip(Seq::empty());
    }

    /// Reading sixty bytes or more gives the three tracks in the order
    /// translation, rotation, scale, twenty bytes each, every field at its
    /// place in its track.
    pub proof fn lemma_read_layout(s: Seq<u8>)
        requires
            s.len() >= Self::size(),
        ensures
            Self::parsed(s) matches Ok(a) && {
                &&& reads_track_at(a.translation, s, 0)
                &&& reads_track_at(a.rotation, s, 20)
                &&& reads_track_at(a.scale, s, 40)
            },
    {
        M2AnimationBlock::lemma_reads_at(s, 0);
        M2AnimationBlock::lemma_reads_at(s, 20);
        M2AnimationBlock::lemma_reads_at(s, 40);
        assert(s.skip(0) =~= s);
    }

    /// The sixty bytes that `write` appends are the translation, rotation and
    /// scale tracks in that order, each written field by field.
    pub proof fn lemma_write_layout(self)
        ensures
            self.encode() == track_bytes(self.translation) + track_bytes(self.rotation)
                + track_bytes(self.scale),
    {
        self.translation.lemma_bytes(264);
        self.rotation.lemma_bytes(264);
        self.scale.lemma_bytes(264);
    }

    /// Parsing an animation and writing it again gives back exactly the
    /// sixty bytes that were read.
    pub proof fn lemma_parse_then_write(s: Seq<u8>)
        requires
            s.len() >= Self::size(),
        ensures
            Self::parsed(s) matches Ok(a) && a.encode() == s.take(Self::size()),
    {
        M2AnimationBlock::lemma_encode_decode(s);
        M2AnimationBlock::lemma_encode_decode(s.skip(20));
        M2AnimationBlock::lemma_encode_decode(s.skip(40));
        assert(s.take(60) =~= s.take(20) + s.skip(20).take(20) + s.skip(40).take(20));
    }
}

impl Default for M2TextureAnimation {
    fn default() -> (r: Self)
        ensures
            r.translation == M2AnimationBlock::zero(),
            r.rotation == M2AnimationBlock::zero(),
            r.scale == M2AnimationBlock::zero(),
    {
        M2TextureAnimation {
            translation: M2AnimationBlock::default(),
            rotation: M2AnimationBlock::default(),
            scale: M2AnimationBlock::default(),
        }
    }
}

} // verus!
