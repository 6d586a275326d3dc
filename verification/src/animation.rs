//! Animation tracks as they are referenced from chunks.
use vstd::prelude::*;

use crate::codec::{
    lemma_le_same_prefix, same_prefix,
    bits_of_i16, i16_of_bits, i16_to_bits, le_u16, lemma_i16_bits, lemma_rest_after_rest_after,
    lemma_u16_bytes_of, lemma_u16_roundtrip, push_u16_le, rest_after, u16_bytes, ByteCursor,
    le_u32, u32_bytes,
};
use crate::common::M2Array;
use crate::error::M2Error;

verus! {

/// An animated value track: how values are interpolated, the global sequence
/// it follows (`-1` for none), the interpolation ranges that tracks carry
/// before WotLK (264), and the arrays of timestamps and of values.
///
/// A track takes twenty bytes from WotLK on, and twenty-eight before, where
/// the eight bytes of the interpolation ranges follow the global sequence.
#[derive(Debug, Clone, Copy, PartialEq, Eq, Structural)]
pub struct M2AnimationBlock {
    pub interpolation_type: u16,
    pub global_sequence: i16,
    pub interpolation_ranges: Option<M2Array>,
    pub timestamps: M2Array,
    pub values: M2Array,
}

/// The twenty bytes of a track in the layout from WotLK on, field by field:
/// interpolation type, global sequence, timestamp count and offset, value
/// count and offset, each little-endian.
pub open spec fn track_bytes(t: M2AnimationBlock) -> Seq<u8> {
    u16_bytes(t.interpolation_type) + u16_bytes(bits_of_i16(t.global_sequence)) + u32_bytes(
        t.timestamps.count,
    ) + u32_bytes(t.timestamps.offset) + u32_bytes(t.values.count) + u32_bytes(t.values.offset)
}

/// The bytes of a track of header version `version`, field by field: before
/// WotLK (264) the count and offset of the interpolation ranges (zero for
/// none) follow the global sequence.
pub open spec fn track_bytes_for(t: M2AnimationBlock, version: u32) -> Seq<u8> {
    if version < 264 {
        u16_bytes(t.interpolation_type) + u16_bytes(bits_of_i16(t.global_sequence)) + u32_bytes(
            match t.interpolation_ranges {
                Some(r) => r.count,
                None => 0,
            },
        ) + u32_bytes(
            match t.interpolation_ranges {
                Some(r) => r.offset,
                None => 0,
            },
        ) + u32_bytes(t.timestamps.count) + u32_bytes(t.timestamps.offset) + u32_bytes(
            t.values.count,
        ) + u32_bytes(t.values.offset)
    } else {
        track_bytes(t)
    }
}

/// Whether `t` is the twenty-byte track at byte `o` of `s`, read field by
/// field: the interpolation type at `o`, the global sequence at `o + 2`, the
/// timestamps at `o + 4` and `o + 8`, the values at `o + 12` and `o + 16`.
pub open spec fn reads_track_at(t: M2AnimationBlock, s: Seq<u8>, o: int) -> bool {
    &&& t.interpolation_type == le_u16(s.skip(o))
    &&& t.global_sequence == i16_of_bits(le_u16(s.skip(o + 2)))
    &&& t.interpolation_ranges is None
    &&& t.timestamps.count == le_u32(s.skip(o + 4))
    &&& t.timestamps.offset == le_u32(s.skip(o + 8))
    &&& t.values.count == le_u32(s.skip(o + 12))
    &&& t.values.offset == le_u32(s.skip(o + 16))
}

/// Whether `t` is the track of header version `version` at byte `o` of `s`,
/// read field by field: before WotLK the interpolation ranges stand at
/// `o + 4` and `o + 8`, the timestamps at `o + 12` and `o + 16`, the values
/// at `o + 20` and `o + 24`.
pub open spec fn reads_track_at_for(t: M2AnimationBlock, s: Seq<u8>, o: int, version: u32) -> bool {
    if version < 264 {
        &&& t.interpolation_type == le_u16(s.skip(o))
        &&& t.global_sequence == i16_of_bits(le_u16(s.skip(o + 2)))
        &&& t.interpolation_ranges == Some(
            M2Array { count: le_u32(s.skip(o + 4)), offset: le_u32(s.skip(o + 8)) },
        )
        &&& t.timestamps.count == le_u32(s.skip(o + 12))
        &&& t.timestamps.offset == le_u32(s.skip(o + 16))
        &&& t.values.count == le_u32(s.skip(o + 20))
        &&& t.values.offset == le_u32(s.skip(o + 24))
    } else {
        reads_track_at(t, s, o)
    }
}

/// The sixteen bytes of a fake track, field by field: timestamp count and
/// offset, value count and offset.
pub open spec fn fake_track_bytes(b: FakeAnimationBlock) -> Seq<u8> {
    u32_bytes(b.timestamps.count) + u32_bytes(b.timestamps.offset) + u32_bytes(b.values.count)
        + u32_bytes(b.values.offset)
}

/// Whether `b` is the fake track at byte `o` of `s`, read field by field.
pub open spec fn reads_fake_track_at(b: FakeAnimationBlock, s: Seq<u8>, o: int) -> bool {
    &&& b.timestamps.count == le_u32(s.skip(o))
    &&& b.timestamps.offset == le_u32(s.skip(o + 4))
    &&& b.values.count == le_u32(s.skip(o + 8))
    &&& b.values.offset == le_u32(s.skip(o + 12))
}

impl M2AnimationBlock {
    /// Whether a track of header version `version` carries interpolation
    /// ranges: before WotLK (264).
    pub open spec fn has_ranges(version: u32) -> bool {
        version < 264
    }

    /// The number of bytes of a track of header version `version`.
    pub open spec fn size_for(version: u32) -> int {
        if Self::has_ranges(version) {
            28
        } else {
            20
        }
    }

    /// The interpolation ranges as written: the empty array when there are none.
    pub open spec fn ranges_or_empty(self) -> M2Array {
        match self.interpolation_ranges {
            Some(r) => r,
            None => M2Array { count: 0, offset: 0 },
        }
    }

    /// The track without interpolation ranges.
    pub open spec fn without_ranges(self) -> Self {
        M2AnimationBlock { interpolation_ranges: None, ..self }
    }

    /// What a track of `version` keeps of `self`: the ranges, the empty
    /// array standing for none, before WotLK; no ranges from WotLK on.
    pub open spec fn normalized_for(self, version: u32) -> Self {
        if Self::has_ranges(version) {
            M2AnimationBlock { interpolation_ranges: Some(self.ranges_or_empty()), ..self }
        } else {
            self.without_ranges()
        }
    }

    /// The twenty-byte track at the start of `s` (the layout from WotLK on).
    pub closed spec fn decode(s: Seq<u8>) -> Self {
        M2AnimationBlock {
            interpolation_type: le_u16(s),
            global_sequence: i16_of_bits(le_u16(s.skip(2))),
            interpolation_ranges: None,
            timestamps: M2Array::decode(s.skip(4)),
            values: M2Array::decode(s.skip(12)),
        }
    }

    /// The twenty bytes that stand for `self` in the layout from WotLK on.
    pub closed spec fn encode(self) -> Seq<u8> {
        u16_bytes(self.interpolation_type) + u16_bytes(bits_of_i16(self.global_sequence))
            + self.timestamps.encode() + self.values.encode()
    }

    /// The track of header version `version` at the start of `s`.
    pub closed spec fn decode_for(s: Seq<u8>, version: u32) -> Self {
        if Self::has_ranges(version) {
            M2AnimationBlock {
                interpolation_type: le_u16(s),
                global_sequence: i16_of_bits(le_u16(s.skip(2))),
                interpolation_ranges: Some(M2Array::decode(s.skip(4))),
                timestamps: M2Array::decode(s.skip(12)),
                values: M2Array::decode(s.skip(20)),
            }
        } else {
            Self::decode(s)
        }
    }

    /// The bytes that stand for `self` in a track of header version `version`.
    pub closed spec fn encode_for(self, version: u32) -> Seq<u8> {
        if Self::has_ranges(version) {
            u16_bytes(self.interpolation_type) + u16_bytes(bits_of_i16(self.global_sequence))
                + self.ranges_or_empty().encode() + self.timestamps.encode()
                + self.values.encode()
        } else {
            self.encode()
        }
    }

    /// The field-by-field reading of both layouts: the twenty-byte layout
    /// holds the interpolation type, the global sequence, the timestamps and
    /// the values, each little-endian; the layout before WotLK holds the
    /// interpolation ranges between the global sequence and the timestamps.
    pub proof fn lemma_layout(s: Seq<u8>, version: u32, b: Self)
        ensures
            Self::decode(s) == (M2AnimationBlock {
                interpolation_type: le_u16(s),
                global_sequence: i16_of_bits(le_u16(s.skip(2))),
                interpolation_ranges: None,
                timestamps: M2Array::decode(s.skip(4)),
                values: M2Array::decode(s.skip(12)),
            }),
            b.encode() == u16_bytes(b.interpolation_type) + u16_bytes(
                bits_of_i16(b.global_sequence),
            ) + b.timestamps.encode() + b.values.encode(),
            Self::decode_for(s, version) == if Self::has_ranges(version) {
                M2AnimationBlock {
                    interpolation_type: le_u16(s),
                    global_sequence: i16_of_bits(le_u16(s.skip(2))),
                    interpolation_ranges: Some(M2Array::decode(s.skip(4))),
                    timestamps: M2Array::decode(s.skip(12)),
                    values: M2Array::decode(s.skip(20)),
                }
            } else {
                Self::decode(s)
            },
            b.encode_for(version) == if Self::has_ranges(version) {
                u16_bytes(b.interpolation_type) + u16_bytes(bits_of_i16(b.global_sequence))
                    + b.ranges_or_empty().encode() + b.timestamps.encode() + b.values.encode()
            } else {
                b.encode()
            },
    {
    }

    /// A track that is read from byte `o` holds the fields at their places.
    pub proof fn lemma_reads_at(s: Seq<u8>, o: int)
        requires
            0 <= o,
            o + 20 <= s.len(),
        ensures
            reads_track_at(Self::decode(s.skip(o)), s, o),
    {
        assert(s.skip(o).skip(2) =~= s.skip(o + 2));
        assert(s.skip(o).skip(4) =~= s.skip(o + 4));
        assert(s.skip(o).skip(12) =~= s.skip(o + 12));
        M2Array::lemma_decode_at(s, o + 4);
        M2Array::lemma_decode_at(s, o + 12);
    }

    /// A track of `version` that is read from byte `o` holds the fields at
    /// their places.
    pub proof fn lemma_reads_at_for(s: Seq<u8>, o: int, version: u32)
        requires
            0 <= o,
            o + Self::size_for(version) <= s.len(),
        ensures
            reads_track_at_for(Self::decode_for(s.skip(o), version), s, o, version),
    {
        if Self::has_ranges(version) {
            assert(s.skip(o).skip(2) =~= s.skip(o + 2));
            assert(s.skip(o).skip(4) =~= s.skip(o + 4));
            assert(s.skip(o).skip(12) =~= s.skip(o + 12));
            assert(s.skip(o).skip(20) =~= s.skip(o + 20));
            M2Array::lemma_decode_at(s, o + 4);
            M2Array::lemma_decode_at(s, o + 12);
            M2Array::lemma_decode_at(s, o + 20);
        } else {
            Self::lemma_reads_at(s, o);
        }
    }

    /// The bytes of a track, field by field, in both layouts.
    pub proof fn lemma_bytes(self, version: u32)
        ensures
            self.encode() == track_bytes(self),
            self.encode_for(version) == track_bytes_for(self, version),
    {
        M2Array::lemma_layout(Seq::empty(), self.timestamps);
        M2Array::lemma_layout(Seq::empty(), self.values);
        M2Array::lemma_layout(Seq::empty(), self.ranges_or_empty());
        assert(self.encode() =~= track_bytes(self));
        assert(self.encode_for(version) =~= track_bytes_for(self, version));
    }

    /// The track with every field zero and no interpolation ranges.
    pub open spec fn zero() -> Self {
        M2AnimationBlock {
            interpolation_type: 0,
            global_sequence: 0,
            interpolation_ranges: None,
            timestamps: M2Array { count: 0, offset: 0 },
            values: M2Array { count: 0, offset: 0 },
        }
    }

    /// What a fail-safe read of a track of `version` at the start of `s`
    /// gives: the track, or the zero track when the bytes do not hold it.
    pub open spec fn decode_or_zero_for(s: Seq<u8>, version: u32) -> Self {
        if s.len() >= Self::size_for(version) {
            Self::decode_for(s, version)
        } else {
            Self::zero()
        }
    }

    /// Reading back the twenty bytes of a track gives the track, without
    /// interpolation ranges, which that layout does not hold.
    pub proof fn lemma_roundtrip(self, rest: Seq<u8>)
        ensures
            Self::decode(self.encode() + rest) == self.without_ranges(),
            (self.encode() + rest).len() == 20 + rest.len(),
            rest_after(self.encode() + rest, 20) == rest,
    {
        let a = u16_bytes(self.interpolation_type);
        let b = u16_bytes(bits_of_i16(self.global_sequence));
        let c = self.timestamps.encode();
        let d = self.values.encode();
        let s = self.encode() + rest;
        lemma_u16_roundtrip(self.interpolation_type, b + c + d + rest);
        lemma_u16_roundtrip(bits_of_i16(self.global_sequence), c + d + rest);
        lemma_i16_bits(self.global_sequence, 0);
        self.timestamps.lemma_roundtrip(d + rest);
        self.values.lemma_roundtrip(rest);
        assert(s =~= a + (b + c + d + rest));
        assert(s.skip(2) =~= b + (c + d + rest));
        assert(s.skip(4) =~= c + (d + rest));
        assert(s.skip(12) =~= d + rest);
        assert(s.skip(20) =~= rest);
    }

    /// Reading back the bytes of a track of `version` gives what that
    /// version keeps of it.
    pub proof fn lemma_roundtrip_for(self, version: u32, rest: Seq<u8>)
        ensures
            Self::decode_for(self.encode_for(version) + rest, version) == self.normalized_for(
                version,
            ),
            (self.encode_for(version) + rest).len() == Self::size_for(version) + rest.len(),
            rest_after(self.encode_for(version) + rest, Self::size_for(version)) == rest,
    {
        if Self::has_ranges(version) {
            let a = u16_bytes(self.interpolation_type);
            let b = u16_bytes(bits_of_i16(self.global_sequence));
            let g = self.ranges_or_empty().encode();
            let c = self.timestamps.encode();
            let d = self.values.encode();
            let s = self.encode_for(version) + rest;
            lemma_u16_roundtrip(self.interpolation_type, b + g + c + d + rest);
            lemma_u16_roundtrip(bits_of_i16(self.global_sequence), g + c + d + rest);
            lemma_i16_bits(self.global_sequence, 0);
            self.ranges_or_empty().lemma_roundtrip(c + d + rest);
            self.timestamps.lemma_roundtrip(d + rest);
            self.values.lemma_roundtrip(rest);
            assert(s =~= a + (b + g + c + d + rest));
            assert(s.skip(2) =~= b + (g + c + d + rest));
            assert(s.skip(4) =~= g + (c + d + rest));
            assert(s.skip(12) =~= c + (d + rest));
            assert(s.skip(20) =~= d + rest);
            assert(s.skip(28) =~= rest);
        } else {
            self.lemma_roundtrip(rest);
        }
    }

    /// The twenty-byte track depends on its twenty bytes only.
    pub proof fn lemma_same_prefix(a: Seq<u8>, b: Seq<u8>)
        requires
            same_prefix(a, b, 20),
        ensures
            Self::decode(a) == Self::decode(b),
    {
        lemma_le_same_prefix(a, b);
        assert(same_prefix(a.skip(2), b.skip(2), 2)) by {
            assert forall|i: int| 0 <= i < 2 implies #[trigger] a.skip(2)[i] == b.skip(2)[i] by {
                assert(a[2 + i] == b[2 + i]);
            }
        }
        assert(same_prefix(a.skip(4), b.skip(4), 8)) by {
            assert forall|i: int| 0 <= i < 8 implies #[trigger] a.skip(4)[i] == b.skip(4)[i] by {
                assert(a[4 + i] == b[4 + i]);
            }
        }
        assert(same_prefix(a.skip(12), b.skip(12), 8)) by {
            assert forall|i: int| 0 <= i < 8 implies #[trigger] a.skip(12)[i] == b.skip(12)[i] by {
                assert(a[12 + i] == b[12 + i]);
            }
        }
        lemma_le_same_prefix(a.skip(2), b.skip(2));
        M2Array::lemma_same_prefix(a.skip(4), b.skip(4));
        M2Array::lemma_same_prefix(a.skip(12), b.skip(12));
    }

    /// A track of `version` depends on its bytes only.
    pub proof fn lemma_same_prefix_for(a: Seq<u8>, b: Seq<u8>, version: u32)
        requires
            same_prefix(a, b, Self::size_for(version)),
        ensures
            Self::decode_for(a, version) == Self::decode_for(b, version),
    {
        if Self::has_ranges(version) {
            lemma_le_same_prefix(a, b);
            assert(same_prefix(a.skip(2), b.skip(2), 2)) by {
                assert forall|i: int| 0 <= i < 2 implies #[trigger] a.skip(2)[i] == b.skip(2)[i] by {
                    assert(a[2 + i] == b[2 + i]);
                }
            }
            assert(same_prefix(a.skip(4), b.skip(4), 8)) by {
                assert forall|i: int| 0 <= i < 8 implies #[trigger] a.skip(4)[i] == b.skip(4)[i] by {
                    assert(a[4 + i] == b[4 + i]);
                }
            }
            assert(same_prefix(a.skip(12), b.skip(12), 8)) by {
                assert forall|i: int| 0 <= i < 8 implies #[trigger] a.skip(12)[i] == b.skip(12)[i] by {
                    assert(a[12 + i] == b[12 + i]);
                }
            }
            assert(same_prefix(a.skip(20), b.skip(20), 8)) by {
                assert forall|i: int| 0 <= i < 8 implies #[trigger] a.skip(20)[i] == b.skip(20)[i] by {
                    assert(a[20 + i] == b[20 + i]);
                }
            }
            lemma_le_same_prefix(a.skip(2), b.skip(2));
            M2Array::lemma_same_prefix(a.skip(4), b.skip(4));
            M2Array::lemma_same_prefix(a.skip(12), b.skip(12));
            M2Array::lemma_same_prefix(a.skip(20), b.skip(20));
        } else {
            Self::lemma_same_prefix(a, b);
        }
    }

    pub proof fn lemma_encode_decode(s: Seq<u8>)
        requires
            s.len() >= 20,
        ensures
            Self::decode(s).encode() == s.take(20),
    {
        lemma_u16_bytes_of(s);
        lemma_u16_bytes_of(s.skip(2));
        lemma_i16_bits(0, le_u16(s.skip(2)));
        M2Array::lemma_encode_decode(s.skip(4));
        M2Array::lemma_encode_decode(s.skip(12));
        assert(s.skip(2).skip(2) =~= s.skip(4));
        assert(s.take(20) =~= s.take(2) + s.skip(2).take(2) + s.skip(4).take(8) + s.skip(12).take(
            8,
        ));
    }

    /// Reads the twenty bytes of a track (the layout from WotLK on).
    pub fn parse(reader: &mut ByteCursor) -> (r: Result<Self, M2Error>)
        ensures
            final(reader).bytes() == old(reader).bytes(),
            final(reader).pos() <= final(reader).bytes().len(),
            final(reader).remaining() == rest_after(old(reader).remaining(), 20),
            old(reader).remaining().len() >= 20 ==> r == Ok::<Self, M2Error>(
                Self::decode(old(reader).remaining()),
            ),
            old(reader).remaining().len() < 20 ==> r == Err::<Self, M2Error>(
                M2Error::UnexpectedEof,
            ),
    {
        let ghost s = reader.remaining();
        proof {
            lemma_rest_after_rest_after(s, 2, 2);
            lemma_rest_after_rest_after(s, 4, 8);
            lemma_rest_after_rest_after(s, 12, 8);
            lemma_rest_after_rest_after(s.skip(2), 2, 8);
        }
        let interpolation_type = reader.read_u16_le()?;
        let global_sequence = reader.read_i16_le()?;
        let timestamps = M2Array::parse(reader)?;
        let values = M2Array::parse(reader)?;
        proof {
            if s.len() >= 20 {
                assert(s.skip(2).skip(2) =~= s.skip(4));
                assert(s.skip(4).skip(8) =~= s.skip(12));
            }
        }
        Ok(M2AnimationBlock {
            interpolation_type,
            global_sequence,
            interpolation_ranges: None,
            timestamps,
            values,
        })
    }

    /// Reads a track of header version `version`: before WotLK, twenty-eight
    /// bytes with the interpolation ranges; twenty from WotLK on.
    pub fn parse_for(reader: &mut ByteCursor, version: u32) -> (r: Result<Self, M2Error>)
        ensures
            final(reader).bytes() == old(reader).bytes(),
            final(reader).pos() <= final(reader).bytes().len(),
            final(reader).remaining() == rest_after(
                old(reader).remaining(),
                Self::size_for(version),
            ),
            old(reader).remaining().len() >= Self::size_for(version) ==> r == Ok::<Self, M2Error>(
                Self::decode_for(old(reader).remaining(), version),
            ),
            old(reader).remaining().len() < Self::size_for(version) ==> r == Err::<Self, M2Error>(
                M2Error::UnexpectedEof,
            ),
    {
        if version >= 264 {
            return Self::parse(reader);
        }
        let ghost s = reader.remaining();
        proof {
            lemma_rest_after_rest_after(s, 2, 2);
            lemma_rest_after_rest_after(s, 4, 8);
            lemma_rest_after_rest_after(s, 12, 8);
            lemma_rest_after_rest_after(s, 20, 8);
        }
        let interpolation_type = reader.read_u16_le()?;
        let global_sequence = reader.read_i16_le()?;
        let ranges = M2Array::parse(reader)?;
        let timestamps = M2Array::parse(reader)?;
        let values = M2Array::parse(reader)?;
        proof {
            if s.len() >= 28 {
                assert(s.skip(2).skip(2) =~= s.skip(4));
                assert(s.skip(4).skip(8) =~= s.skip(12));
                assert(s.skip(12).skip(8) =~= s.skip(20));
            }
        }
        Ok(M2AnimationBlock {
            interpolation_type,
            global_sequence,
            interpolation_ranges: Some(ranges),
            timestamps,
            values,
        })
    }

    /// Reads a track of `version`, or gives the zero track when the input
    /// runs out.
    pub fn parse_or_zero_for(reader: &mut ByteCursor, version: u32) -> (r: Self)
        ensures
            final(reader).bytes() == old(reader).bytes(),
            final(reader).pos() <= final(reader).bytes().len(),
            final(reader).remaining() == rest_after(
                old(reader).remaining(),
                Self::size_for(version),
            ),
            r == Self::decode_or_zero_for(old(reader).remaining(), version),
    {
        match Self::parse_for(reader, version) {
            Ok(b) => b,
            Err(_) => Self::default(),
        }
    }

    /// Appends the twenty bytes of `self` (the layout from WotLK on, which
    /// holds no interpolation ranges).
    pub fn write(&self, out: &mut Vec<u8>)
        ensures
            final(out)@ == old(out)@ + self.encode(),
    {
        push_u16_le(out, self.interpolation_type);
        push_u16_le(out, i16_to_bits(self.global_sequence));
        self.timestamps.write(out);
        self.values.write(out);
        assert(out@ =~= old(out)@ + self.encode());
    }

    /// Appends the bytes of `self` as a track of header version `version`:
    /// before WotLK the interpolation ranges, the empty array standing for
    /// none, follow the global sequence.
    pub fn write_for(&self, out: &mut Vec<u8>, version: u32)
        ensures
            final(out)@ == old(out)@ + self.encode_for(version),
    {
        if version >= 264 {
            self.write(out);
        } else {
            push_u16_le(out, self.interpolation_type);
            push_u16_le(out, i16_to_bits(self.global_sequence));
            match self.interpolation_ranges {
                Some(r) => r.write(out),
                None => M2Array::new(0, 0).write(out),
            }
            self.timestamps.write(out);
            self.values.write(out);
            assert(out@ =~= old(out)@ + self.encode_for(version));
        }
    }
}

impl Default for M2AnimationBlock {
    fn default() -> (r: Self)
        ensures
            r == Self::zero(),
    {
        M2AnimationBlock {
            interpolation_type: 0,
            global_sequence: 0,
            interpolation_ranges: None,
            timestamps: M2Array::new(0, 0),
            values: M2Array::new(0, 0),
        }
    }
}

/// A track without interpolation or global sequence (sixteen bytes): the
/// arrays of timestamps and of values.
#[derive(Debug, Clone, Copy, PartialEq, Eq, Structural)]
pub struct FakeAnimationBlock {
    pub timestamps: M2Array,
    pub values: M2Array,
}

impl FakeAnimationBlock {
    pub closed spec fn decode(s: Seq<u8>) -> Self {
        FakeAnimationBlock { timestamps: M2Array::decode(s), values: M2Array::decode(s.skip(8)) }
    }

    pub closed spec fn encode(self) -> Seq<u8> {
        self.timestamps.encode() + self.values.encode()
    }

    /// The field-by-field reading of the sixteen bytes: the timestamps, then
    /// the values.
    pub proof fn lemma_layout(s: Seq<u8>, b: Self)
        ensures
            Self::decode(s) == (FakeAnimationBlock {
                timestamps: M2Array::decode(s),
                values: M2Array::decode(s.skip(8)),
            }),
            b.encode() == b.timestamps.encode() + b.values.encode(),
    {
    }

    /// A fake track that is read from byte `o` holds the fields at their places.
    pub proof fn lemma_reads_at(s: Seq<u8>, o: int)
        requires
            0 <= o,
            o + 16 <= s.len(),
        ensures
            reads_fake_track_at(Self::decode(s.skip(o)), s, o),
    {
        assert(s.skip(o).skip(8) =~= s.skip(o + 8));
        M2Array::lemma_decode_at(s, o);
        M2Array::lemma_decode_at(s, o + 8);
    }

    /// The bytes of a fake track, field by field.
    pub proof fn lemma_bytes(self)
        ensures
            self.encode() == fake_track_bytes(self),
    {
        M2Array::lemma_layout(Seq::empty(), self.timestamps);
        M2Array::lemma_layout(Seq::empty(), self.values);
        assert(self.encode() =~= fake_track_bytes(self));
    }

    /// The track whose two arrays are empty.
    pub open spec fn empty() -> Self {
        FakeAnimationBlock {
            timestamps: M2Array { count: 0, offset: 0 },
            values: M2Array { count: 0, offset: 0 },
        }
    }

    /// What a fail-safe read at the start of `s` gives.
    pub open spec fn decode_or_empty(s: Seq<u8>) -> Self {
        if s.len() >= 16 {
            Self::decode(s)
        } else {
            Self::empty()
        }
    }

    pub proof fn lemma_roundtrip(self, rest: Seq<u8>)
        ensures
            Self::decode(self.encode() + rest) == self,
            (self.encode() + rest).len() == 16 + rest.len(),
            rest_after(self.encode() + rest, 16) == rest,
    {
        let a = self.timestamps.encode();
        let b = self.values.encode();
        let s = self.encode() + rest;
        self.timestamps.lemma_roundtrip(b + rest);
        self.values.lemma_roundtrip(rest);
        assert(s =~= a + (b + rest));
        assert(s.skip(8) =~= b + rest);
        assert(s.skip(16) =~= rest);
    }

    pub fn parse(reader: &mut ByteCursor) -> (r: Result<Self, M2Error>)
        ensures
            final(reader).bytes() == old(reader).bytes(),
            final(reader).pos() <= final(reader).bytes().len(),
            final(reader).remaining() == rest_after(old(reader).remaining(), 16),
            old(reader).remaining().len() >= 16 ==> r == Ok::<Self, M2Error>(
                Self::decode(old(reader).remaining()),
            ),
            old(reader).remaining().len() < 16 ==> r == Err::<Self, M2Error>(
                M2Error::UnexpectedEof,
            ),
    {
        let ghost s = reader.remaining();
        proof {
            lemma_rest_after_rest_after(s, 8, 8);
        }
        let timestamps = M2Array::parse(reader)?;
        let values = M2Array::parse(reader)?;
        Ok(FakeAnimationBlock { timestamps, values })
    }

    /// Reads a track, or gives the empty track when the input runs out.
    pub fn parse_or_empty(reader: &mut ByteCursor) -> (r: Self)
        ensures
            final(reader).bytes() == old(reader).bytes(),
            final(reader).pos() <= final(reader).bytes().len(),
            final(reader).remaining() == rest_after(old(reader).remaining(), 16),
            r == Self::decode_or_empty(old(reader).remaining()),
    {
        match Self::parse(reader) {
            Ok(b) => b,
            Err(_) => FakeAnimationBlock { timestamps: M2Array::new(0, 0), values: M2Array::new(0, 0) },
        }
    }

    pub fn write(&self, out: &mut Vec<u8>)
        ensures
            final(out)@ == old(out)@ + self.encode(),
    {
        self.timestamps.write(out);
        self.values.write(out);
        assert(out@ =~= old(out)@ + self.encode());
    }
}

} // verus!
