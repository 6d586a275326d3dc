//! Small fixed-size records shared by the chunks.
use vstd::prelude::*;

use crate::codec::{
    lemma_le_same_prefix, same_prefix,
    le_u32, lemma_rest_after_rest_after, lemma_u32_bytes_of, lemma_u32_roundtrip, push_u32_le, rest_after,
    u32_bytes, ByteCursor,
};
use crate::error::M2Error;

verus! {

/// A count and an offset into the file: where an array of elements lies.
#[derive(Debug, Clone, Copy, PartialEq, Eq, Structural)]
pub struct M2Array {
    pub count: u32,
    pub offset: u32,
}

impl M2Array {
    /// The record at the start of `s` (eight bytes: count, then offset).
    pub closed spec fn decode(s: Seq<u8>) -> Self {
        M2Array { count: le_u32(s), offset: le_u32(s.skip(4)) }
    }

    /// The eight bytes that stand for `self`.
    pub closed spec fn encode(self) -> Seq<u8> {
        u32_bytes(self.count) + u32_bytes(self.offset)
    }

    /// The field-by-field reading of the eight bytes: the count, then the
    /// offset, each a little-endian `u32`.
    pub proof fn lemma_layout(s: Seq<u8>, a: Self)
        ensures
            Self::decode(s) == (M2Array { count: le_u32(s), offset: le_u32(s.skip(4)) }),
            a.encode() == u32_bytes(a.count) + u32_bytes(a.offset),
    {
    }

    /// The array reference that starts at byte `x` of `s`: the count at `x`,
    /// the offset at `x + 4`.
    pub proof fn lemma_decode_at(s: Seq<u8>, x: int)
        requires
            0 <= x,
            x + 8 <= s.len(),
        ensures
            Self::decode(s.skip(x)) == (M2Array {
                count: le_u32(s.skip(x)),
                offset: le_u32(s.skip(x + 4)),
            }),
    {
        assert(s.skip(x).skip(4) =~= s.skip(x + 4));
    }

    pub proof fn lemma_roundtrip(self, rest: Seq<u8>)
        ensures
            Self::decode(self.encode() + rest) == self,
            (self.encode() + rest).len() == 8 + rest.len(),
            rest_after(self.encode() + rest, 8) == rest,
    {
        let a = u32_bytes(self.count);
        let b = u32_bytes(self.offset);
        lemma_u32_roundtrip(self.count, b + rest);
        lemma_u32_roundtrip(self.offset, rest);
        assert(self.encode() + rest =~= a + (b + rest));
        assert((self.encode() + rest).skip(4) =~= b + rest);
        assert((self.encode() + rest).skip(8) =~= rest);
    }

    /// The record depends on its eight bytes only.
    pub proof fn lemma_same_prefix(a: Seq<u8>, b: Seq<u8>)
        requires
            same_prefix(a, b, 8),
        ensures
            Self::decode(a) == Self::decode(b),
    {
        lemma_le_same_prefix(a, b);
        assert(same_prefix(a.skip(4), b.skip(4), 4)) by {
            assert forall|i: int| 0 <= i < 4 implies #[trigger] a.skip(4)[i] == b.skip(4)[i] by {
                assert(a[4 + i] == b[4 + i]);
            }
        }
        lemma_le_same_prefix(a.skip(4), b.skip(4));
    }

    pub proof fn lemma_encode_decode(s: Seq<u8>)
        requires
            s.len() >= 8,
        ensures
            Self::decode(s).encode() == s.take(8),
    {
        lemma_u32_bytes_of(s);
        lemma_u32_bytes_of(s.skip(4));
        assert(s.take(8) =~= s.take(4) + s.skip(4).take(4));
    }

    /// What a fail-safe read at the start of `s` gives: the reference, or the
    /// empty one when fewer than eight bytes are left.
    pub open spec fn decode_or_empty(s: Seq<u8>) -> Self {
        if s.len() >= 8 {
            Self::decode(s)
        } else {
            M2Array { count: 0, offset: 0 }
        }
    }

    /// Reads an array reference, or gives the empty one when the input runs out.
    pub fn parse_or_empty(reader: &mut ByteCursor) -> (r: Self)
        ensures
            final(reader).bytes() == old(reader).bytes(),
            final(reader).pos() <= final(reader).bytes().len(),
            final(reader).remaining() == rest_after(old(reader).remaining(), 8),
            r == Self::decode_or_empty(old(reader).remaining()),
    {
        match Self::parse(reader) {
            Ok(a) => a,
            Err(_) => M2Array::new(0, 0),
        }
    }

    pub fn new(count: u32, offset: u32) -> (r: Self)
        ensures
            r.count == count,
            r.offset == offset,
    {
        M2Array { count, offset }
    }

    /// Reads the eight bytes of an array reference.
    pub fn parse(reader: &mut ByteCursor) -> (r: Result<Self, M2Error>)
        ensures
            final(reader).bytes() == old(reader).bytes(),
            final(reader).pos() <= final(reader).bytes().len(),
            final(reader).remaining() == rest_after(old(reader).remaining(), 8),
            old(reader).remaining().len() >= 8 ==> r == Ok::<Self, M2Error>(
                Self::decode(old(reader).remaining()),
            ),
            old(reader).remaining().len() < 8 ==> r == Err::<Self, M2Error>(M2Error::UnexpectedEof),
    {
        let ghost s = reader.remaining();
        proof {
            lemma_rest_after_rest_after(s, 4, 4);
        }
        let count = reader.read_u32_le()?;
        let offset = reader.read_u32_le()?;
        Ok(M2Array { count, offset })
    }

    /// Appends the eight bytes of `self`.
    pub fn write(&self, out: &mut Vec<u8>)
        ensures
            final(out)@ == old(out)@ + self.encode(),
    {
        push_u32_le(out, self.count);
        push_u32_le(out, self.offset);
        assert(out@ =~= old(out)@ + self.encode());
    }
}

/// A two-component vector; each component is kept as the bit pattern of its
/// IEEE-754 single-precision value, as it stands in the file.
#[derive(Debug, Clone, Copy, PartialEq, Eq, Structural)]
pub struct C2Vector {
    pub x: u32,
    pub y: u32,
}

impl C2Vector {
    pub closed spec fn decode(s: Seq<u8>) -> Self {
        C2Vector { x: le_u32(s), y: le_u32(s.skip(4)) }
    }

    pub closed spec fn encode(self) -> Seq<u8> {
        u32_bytes(self.x) + u32_bytes(self.y)
    }

    /// The field-by-field reading of the eight bytes: `x`, then `y`, each the
    /// little-endian bit pattern of a float.
    pub proof fn lemma_layout(s: Seq<u8>, v: Self)
        ensures
            Self::decode(s) == (C2Vector { x: le_u32(s), y: le_u32(s.skip(4)) }),
            v.encode() == u32_bytes(v.x) + u32_bytes(v.y),
    {
    }

    /// The vector that starts at byte `o` of `s`: `x` at `o`, `y` at `o + 4`.
    pub proof fn lemma_decode_at(s: Seq<u8>, o: int)
        requires
            0 <= o,
            o + 8 <= s.len(),
        ensures
            Self::decode(s.skip(o)) == (C2Vector { x: le_u32(s.skip(o)), y: le_u32(s.skip(o + 4)) }),
    {
        assert(s.skip(o).skip(4) =~= s.skip(o + 4));
    }

    pub proof fn lemma_roundtrip(self, rest: Seq<u8>)
        ensures
            Self::decode(self.encode() + rest) == self,
            (self.encode() + rest).len() == 8 + rest.len(),
            rest_after(self.encode() + rest, 8) == rest,
    {
        M2Array { count: self.x, offset: self.y }.lemma_roundtrip(rest);
        assert(self.encode() == M2Array { count: self.x, offset: self.y }.encode());
    }

    /// What a fail-safe read at the start of `s` gives: the vector, or `d`
    /// when fewer than eight bytes are left.
    pub open spec fn decode_or(s: Seq<u8>, d: Self) -> Self {
        if s.len() >= 8 {
            Self::decode(s)
        } else {
            d
        }
    }

    /// Reads a vector, or gives `d` when the input runs out.
    pub fn parse_or(reader: &mut ByteCursor, d: Self) -> (r: Self)
        ensures
            final(reader).bytes() == old(reader).bytes(),
            final(reader).pos() <= final(reader).bytes().len(),
            final(reader).remaining() == rest_after(old(reader).remaining(), 8),
            r == Self::decode_or(old(reader).remaining(), d),
    {
        match Self::parse(reader) {
            Ok(v) => v,
            Err(_) => d,
        }
    }

    pub fn parse(reader: &mut ByteCursor) -> (r: Result<Self, M2Error>)
        ensures
            final(reader).bytes() == old(reader).bytes(),
            final(reader).pos() <= final(reader).bytes().len(),
            final(reader).remaining() == rest_after(old(reader).remaining(), 8),
            old(reader).remaining().len() >= 8 ==> r == Ok::<Self, M2Error>(
                Self::decode(old(reader).remaining()),
            ),
            old(reader).remaining().len() < 8 ==> r == Err::<Self, M2Error>(M2Error::UnexpectedEof),
    {
        let ghost s = reader.remaining();
        proof {
            lemma_rest_after_rest_after(s, 4, 4);
        }
        let x = reader.read_u32_le()?;
        let y = reader.read_u32_le()?;
        Ok(C2Vector { x, y })
    }

    pub fn write(&self, out: &mut Vec<u8>)
        ensures
            final(out)@ == old(out)@ + self.encode(),
    {
        push_u32_le(out, self.x);
        push_u32_le(out, self.y);
        assert(out@ =~= old(out)@ + self.encode());
    }
}

/// A three-component vector; each component is kept as the bit pattern of its
/// IEEE-754 single-precision value, as it stands in the file.
#[derive(Debug, Clone, Copy, PartialEq, Eq, Structural)]
pub struct C3Vector {
    pub x: u32,
    pub y: u32,
    pub z: u32,
}

impl C3Vector {
    pub closed spec fn decode(s: Seq<u8>) -> Self {
        C3Vector { x: le_u32(s), y: le_u32(s.skip(4)), z: le_u32(s.skip(8)) }
    }

    pub closed spec fn encode(self) -> Seq<u8> {
        u32_bytes(self.x) + u32_bytes(self.y) + u32_bytes(self.z)
    }

    /// The field-by-field reading of the twelve bytes: `x`, `y`, then `z`,
    /// each the little-endian bit pattern of a float.
    pub proof fn lemma_layout(s: Seq<u8>, v: Self)
        ensures
            Self::decode(s) == (C3Vector {
                x: le_u32(s),
                y: le_u32(s.skip(4)),
                z: le_u32(s.skip(8)),
            }),
            v.encode() == u32_bytes(v.x) + u32_bytes(v.y) + u32_bytes(v.z),
    {
    }

    /// The vector that starts at byte `o` of `s`: `x` at `o`, `y` at `o + 4`,
    /// `z` at `o + 8`.
    pub proof fn lemma_decode_at(s: Seq<u8>, o: int)
        requires
            0 <= o,
            o + 12 <= s.len(),
        ensures
            Self::decode(s.skip(o)) == (C3Vector {
                x: le_u32(s.skip(o)),
                y: le_u32(s.skip(o + 4)),
                z: le_u32(s.skip(o + 8)),
            }),
    {
        assert(s.skip(o).skip(4) =~= s.skip(o + 4));
        assert(s.skip(o).skip(8) =~= s.skip(o + 8));
    }

    /// The vector with all three components `0.0`.
    pub open spec fn zero() -> Self {
        C3Vector { x: 0, y: 0, z: 0 }
    }

    /// The vector depends on its twelve bytes only.
    pub proof fn lemma_same_prefix(a: Seq<u8>, b: Seq<u8>)
        requires
            same_prefix(a, b, 12),
        ensures
            Self::decode(a) == Self::decode(b),
    {
        lemma_le_same_prefix(a, b);
        assert(same_prefix(a.skip(4), b.skip(4), 4)) by {
            assert forall|i: int| 0 <= i < 4 implies #[trigger] a.skip(4)[i] == b.skip(4)[i] by {
                assert(a[4 + i] == b[4 + i]);
            }
        }
        assert(same_prefix(a.skip(8), b.skip(8), 4)) by {
            assert forall|i: int| 0 <= i < 4 implies #[trigger] a.skip(8)[i] == b.skip(8)[i] by {
                assert(a[8 + i] == b[8 + i]);
            }
        }
        lemma_le_same_prefix(a.skip(4), b.skip(4));
        lemma_le_same_prefix(a.skip(8), b.skip(8));
    }

    /// What a fail-safe read at the start of `s` gives: the vector, or the
    /// zero vector when fewer than twelve bytes are left.
    pub open spec fn decode_or_zero(s: Seq<u8>) -> Self {
        if s.len() >= 12 {
            Self::decode(s)
        } else {
            Self::zero()
        }
    }

    /// Reads a vector, or gives the zero vector when the input runs out.
    pub fn parse_or_zero(reader: &mut ByteCursor) -> (r: Self)
        ensures
            final(reader).bytes() == old(reader).bytes(),
            final(reader).pos() <= final(reader).bytes().len(),
            final(reader).remaining() == rest_after(old(reader).remaining(), 12),
            r == Self::decode_or_zero(old(reader).remaining()),
    {
        match Self::parse(reader) {
            Ok(v) => v,
            Err(_) => C3Vector { x: 0, y: 0, z: 0 },
        }
    }

    pub proof fn lemma_roundtrip(self, rest: Seq<u8>)
        ensures
            Self::decode(self.encode() + rest) == self,
            (self.encode() + rest).len() == 12 + rest.len(),
            rest_after(self.encode() + rest, 12) == rest,
    {
        let a = u32_bytes(self.x);
        let b = u32_bytes(self.y);
        let c = u32_bytes(self.z);
        lemma_u32_roundtrip(self.x, b + c + rest);
        lemma_u32_roundtrip(self.y, c + rest);
        lemma_u32_roundtrip(self.z, rest);
        assert(self.encode() + rest =~= a + (b + c + rest));
        assert((self.encode() + rest).skip(4) =~= b + (c + rest));
        assert((self.encode() + rest).skip(8) =~= c + rest);
        assert((self.encode() + rest).skip(12) =~= rest);
    }

    pub fn parse(reader: &mut ByteCursor) -> (r: Result<Self, M2Error>)
        ensures
            final(reader).bytes() == old(reader).bytes(),
            final(reader).pos() <= final(reader).bytes().len(),
            final(reader).remaining() == rest_after(old(reader).remaining(), 12),
            old(reader).remaining().len() >= 12 ==> r == Ok::<Self, M2Error>(
                Self::decode(old(reader).remaining()),
            ),
            old(reader).remaining().len() < 12 ==> r == Err::<Self, M2Error>(
                M2Error::UnexpectedEof,
            ),
    {
        let ghost s = reader.remaining();
        proof {
            lemma_rest_after_rest_after(s, 4, 4);
            lemma_rest_after_rest_after(s, 8, 4);
            lemma_rest_after_rest_after(s.skip(4), 4, 4);
        }
        let x = reader.read_u32_le()?;
        let y = reader.read_u32_le()?;
        let z = reader.read_u32_le()?;
        proof {
            if s.len() >= 12 {
                assert(s.skip(4).skip(4) =~= s.skip(8));
            }
        }
        Ok(C3Vector { x, y, z })
    }

    pub fn write(&self, out: &mut Vec<u8>)
        ensures
            final(out)@ == old(out)@ + self.encode(),
    {
        push_u32_le(out, self.x);
        push_u32_le(out, self.y);
        push_u32_le(out, self.z);
        assert(out@ =~= old(out)@ + self.encode());
    }
}

} // verus!
