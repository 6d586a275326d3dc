//! Little-endian primitives and an in-memory read cursor.
use vstd::prelude::*;

use crate::error::M2Error;

verus! {

// ---------------------------------------------------------------------------
// Specifications of the byte encodings
// ---------------------------------------------------------------------------

/// What is left of `s` after a read of `n` bytes: the bytes after them when
/// the read succeeds, nothing when it fails (the reader then stands at the end).
pub open spec fn rest_after(s: Seq<u8>, n: int) -> Seq<u8> {
    if 0 <= n <= s.len() {
        s.skip(n)
    } else {
        Seq::empty()
    }
}

/// The little-endian `u16` in the first two bytes of `s`.
pub closed spec fn le_u16(s: Seq<u8>) -> u16 {
    (s[0] + 256 * s[1]) as u16
}

/// The little-endian `u32` in the first four bytes of `s`.
pub closed spec fn le_u32(s: Seq<u8>) -> u32 {
    (s[0] + 256 * s[1] + 65536 * s[2] + 16777216 * s[3]) as u32
}

/// The two bytes of `v`, least significant first.
pub closed spec fn u16_bytes(v: u16) -> Seq<u8> {
    seq![(v % 256) as u8, (v / 256) as u8]
}

/// The four bytes of `v`, least significant first.
pub closed spec fn u32_bytes(v: u32) -> Seq<u8> {
    seq![
        (v % 256) as u8,
        ((v / 256) % 256) as u8,
        ((v / 256 / 256) % 256) as u8,
        (v / 256 / 256 / 256) as u8,
    ]
}

/// The signed value whose two's-complement bit pattern is `u`.
pub open spec fn i16_of_bits(u: u16) -> i16 {
    if u < 32768 {
        u as i16
    } else {
        (u - 65536) as i16
    }
}

/// The two's-complement bit pattern of `x`.
pub open spec fn bits_of_i16(x: i16) -> u16 {
    if x >= 0 {
        x as u16
    } else {
        (x + 65536) as u16
    }
}

// ---------------------------------------------------------------------------
// Lemmas on the encodings
// ---------------------------------------------------------------------------

pub proof fn lemma_u16_roundtrip(v: u16, rest: Seq<u8>)
    ensures
        le_u16(u16_bytes(v) + rest) == v,
        (u16_bytes(v) + rest).len() == 2 + rest.len(),
        rest_after(u16_bytes(v) + rest, 2) == rest,
{
    let s = u16_bytes(v) + rest;
    assert(s[0] == (v % 256) as u8);
    assert(s[1] == (v / 256) as u8);
    assert(s.skip(2) =~= rest);
}

pub proof fn lemma_u32_roundtrip(v: u32, rest: Seq<u8>)
    ensures
        le_u32(u32_bytes(v) + rest) == v,
        (u32_bytes(v) + rest).len() == 4 + rest.len(),
        rest_after(u32_bytes(v) + rest, 4) == rest,
{
    let s = u32_bytes(v) + rest;
    let x = v as int;
    let y1 = x / 256;
    let y2 = y1 / 256;
    let y3 = y2 / 256;
    assert(x == 256 * y1 + x % 256);
    assert(y1 == 256 * y2 + y1 % 256);
    assert(y2 == 256 * y3 + y2 % 256);
    assert(y3 < 256);
    assert(s[0] == x % 256);
    assert(s[1] == y1 % 256);
    assert(s[2] == y2 % 256);
    assert(s[3] == y3);
    assert(s.skip(4) =~= rest);
}

pub proof fn lemma_u16_bytes_of(s: Seq<u8>)
    requires
        s.len() >= 2,
    ensures
        u16_bytes(le_u16(s)) == s.take(2),
{
    let b0 = s[0] as int;
    let b1 = s[1] as int;
    assert((b0 + 256 * b1) % 256 == b0 && (b0 + 256 * b1) / 256 == b1) by (nonlinear_arith)
        requires
            0 <= b0 < 256,
            0 <= b1 < 256,
    ;
    assert(u16_bytes(le_u16(s)) =~= s.take(2));
}

pub proof fn lemma_u32_bytes_of(s: Seq<u8>)
    requires
        s.len() >= 4,
    ensures
        u32_bytes(le_u32(s)) == s.take(4),
{
    let b0 = s[0] as int;
    let b1 = s[1] as int;
    let b2 = s[2] as int;
    let b3 = s[3] as int;
    let v = b0 + 256 * b1 + 65536 * b2 + 16777216 * b3;
    assert(le_u32(s) == v);
    assert(v % 256 == b0 && v / 256 == b1 + 256 * b2 + 65536 * b3);
    let y1 = b1 + 256 * b2 + 65536 * b3;
    assert(y1 % 256 == b1 && y1 / 256 == b2 + 256 * b3);
    let y2 = b2 + 256 * b3;
    assert(y2 % 256 == b2 && y2 / 256 == b3);
    assert(u32_bytes(le_u32(s)) =~= s.take(4));
}

/// What the little-endian decoders and encoders compute, in bytes.
pub proof fn lemma_le_values(s: Seq<u8>, v16: u16, v32: u32)
    ensures
        s.len() >= 2 ==> le_u16(s) == s[0] + 256 * s[1],
        s.len() >= 4 ==> le_u32(s) == s[0] + 256 * s[1] + 65536 * s[2] + 16777216 * s[3],
        u16_bytes(v16) == seq![(v16 % 256) as u8, (v16 / 256) as u8],
        u32_bytes(v32) == seq![
            (v32 % 256) as u8,
            ((v32 / 256) % 256) as u8,
            ((v32 / 256 / 256) % 256) as u8,
            (v32 / 256 / 256 / 256) as u8,
        ],
{
}

/// Whether `a` and `b` both hold at least `n` bytes and agree on the first `n`.
pub open spec fn same_prefix(a: Seq<u8>, b: Seq<u8>, n: int) -> bool {
    a.len() >= n && b.len() >= n && forall|i: int| 0 <= i < n ==> #[trigger] a[i] == b[i]
}

/// The decoders read no further than their first two or four bytes.
pub proof fn lemma_le_same_prefix(a: Seq<u8>, b: Seq<u8>)
    ensures
        same_prefix(a, b, 2) ==> le_u16(a) == le_u16(b),
        same_prefix(a, b, 4) ==> le_u32(a) == le_u32(b),
{
    if same_prefix(a, b, 2) {
        assert(a[0] == b[0] && a[1] == b[1]);
    }
    if same_prefix(a, b, 4) {
        assert(a[0] == b[0] && a[1] == b[1] && a[2] == b[2] && a[3] == b[3]);
    }
}

/// Concatenation is associative.
pub proof fn lemma_concat_assoc(a: Seq<u8>, b: Seq<u8>, c: Seq<u8>)
    ensures
        (a + b) + c == a + (b + c),
{
    assert((a + b) + c =~= a + (b + c));
}

/// The first `u32` of `s`, or `d` when fewer than four bytes are left.
pub open spec fn u32_or(s: Seq<u8>, d: u32) -> u32 {
    if s.len() >= 4 {
        le_u32(s)
    } else {
        d
    }
}

/// The first `u32` of `s`, if four bytes are left.
pub open spec fn u32_opt(s: Seq<u8>) -> Option<u32> {
    if s.len() >= 4 {
        Some(le_u32(s))
    } else {
        None
    }
}

/// The low byte of `x`.
pub open spec fn low_byte(x: u16) -> u8 {
    (x % 256) as u8
}

pub proof fn lemma_i16_bits(x: i16, u: u16)
    ensures
        i16_of_bits(bits_of_i16(x)) == x,
        bits_of_i16(i16_of_bits(u)) == u,
{
}

/// Two reads in a row leave what one read of both lengths leaves.
pub proof fn lemma_rest_after_rest_after(s: Seq<u8>, a: int, b: int)
    requires
        0 <= a,
        0 <= b,
    ensures
        rest_after(rest_after(s, a), b) == rest_after(s, a + b),
{
    if a + b <= s.len() {
        assert(s.skip(a).skip(b) =~= s.skip(a + b));
    } else if a <= s.len() {
    } else {
    }
}

// ---------------------------------------------------------------------------
// Executable primitives
// ---------------------------------------------------------------------------

/// Appends the little-endian bytes of `v` to `out`.
pub fn push_u16_le(out: &mut Vec<u8>, v: u16)
    ensures
        final(out)@ == old(out)@ + u16_bytes(v),
{
    out.push((v % 256) as u8);
    out.push((v / 256) as u8);
    assert(out@ =~= old(out)@ + u16_bytes(v));
}

/// Appends the little-endian bytes of `v` to `out`.
pub fn push_u32_le(out: &mut Vec<u8>, v: u32)
    ensures
        final(out)@ == old(out)@ + u32_bytes(v),
{
    out.push((v % 256) as u8);
    out.push(((v / 256) % 256) as u8);
    out.push(((v / 256 / 256) % 256) as u8);
    out.push((v / 256 / 256 / 256) as u8);
    assert(out@ =~= old(out)@ + u32_bytes(v));
}

/// The two's-complement bit pattern of `x`.
pub fn i16_to_bits(x: i16) -> (r: u16)
    ensures
        r == bits_of_i16(x),
{
    if x >= 0 {
        x as u16
    } else {
        ((x + 32767 + 1) as u16) + 32768
    }
}

/// The signed value whose two's-complement bit pattern is `u`.
pub fn i16_from_bits(u: u16) -> (r: i16)
    ensures
        r == i16_of_bits(u),
{
    if u < 32768 {
        u as i16
    } else {
        ((u - 32768) as i16) - 32767 - 1
    }
}

/// A read position over a byte buffer that it owns.
///
/// A read of `n` bytes either takes the next `n` bytes and moves past them,
/// or, when fewer than `n` are left, fails and leaves the cursor at the end.
pub struct ByteCursor {
    data: Vec<u8>,
    pos: usize,
}

impl ByteCursor {
    /// The whole buffer.
    pub closed spec fn bytes(&self) -> Seq<u8> {
        self.data@
    }

    /// The read position.
    pub closed spec fn pos(&self) -> int {
        self.pos as int
    }

    /// The bytes that the next reads see.
    pub open spec fn remaining(&self) -> Seq<u8> {
        if self.pos() <= self.bytes().len() {
            self.bytes().skip(self.pos())
        } else {
            Seq::empty()
        }
    }

    /// A cursor at the start of `data`.
    pub fn new(data: Vec<u8>) -> (c: Self)
        ensures
            c.bytes() == data@,
            c.pos() == 0,
            c.remaining() == data@,
    {
        let c = ByteCursor { data, pos: 0 };
        assert(c.bytes().skip(0) =~= c.bytes());
        c
    }

    /// The whole buffer.
    pub fn get_ref(&self) -> (r: &Vec<u8>)
        ensures
            r@ == self.bytes(),
    {
        &self.data
    }

    /// The read position.
    pub fn position(&self) -> (r: usize)
        ensures
            r == self.pos(),
    {
        self.pos
    }

    /// Gives the buffer back.
    pub fn into_inner(self) -> (r: Vec<u8>)
        ensures
            r@ == self.bytes(),
    {
        self.data
    }

    /// Reserves the next `n` bytes and returns where they start.
    fn take(&mut self, n: usize) -> (r: Option<usize>)
        requires
            n > 0,
        ensures
            final(self).bytes() == old(self).bytes(),
            old(self).remaining().len() >= n ==> r == Some(old(self).pos() as usize) && old(
                self,
            ).pos() + n <= old(self).bytes().len() && final(self).pos() == old(self).pos() + n,
            old(self).remaining().len() < n ==> r is None,
            final(self).remaining() == rest_after(old(self).remaining(), n as int),
            final(self).pos() <= final(self).bytes().len(),
    {
        let len = self.data.len();
        if self.pos <= len && n <= len - self.pos {
            let start = self.pos;
            self.pos = self.pos + n;
            assert(self.bytes().skip(self.pos()) =~= old(self).remaining().skip(n as int));
            Some(start)
        } else {
            self.pos = len;
            assert(self.bytes().skip(len as int) =~= Seq::<u8>::empty());
            None
        }
    }

    /// Reads one byte.
    pub fn read_u8(&mut self) -> (r: Result<u8, M2Error>)
        ensures
            final(self).bytes() == old(self).bytes(),
            final(self).pos() <= final(self).bytes().len(),
            final(self).remaining() == rest_after(old(self).remaining(), 1),
            old(self).remaining().len() >= 1 ==> r == Ok::<u8, M2Error>(old(self).remaining()[0]),
            old(self).remaining().len() < 1 ==> r == Err::<u8, M2Error>(M2Error::UnexpectedEof),
    {
        match self.take(1) {
            Some(i) => Ok(self.data[i]),
            None => Err(M2Error::UnexpectedEof),
        }
    }

    /// Reads a little-endian `u16`.
    pub fn read_u16_le(&mut self) -> (r: Result<u16, M2Error>)
        ensures
            final(self).bytes() == old(self).bytes(),
            final(self).pos() <= final(self).bytes().len(),
            final(self).remaining() == rest_after(old(self).remaining(), 2),
            old(self).remaining().len() >= 2 ==> r == Ok::<u16, M2Error>(
                le_u16(old(self).remaining()),
            ),
            old(self).remaining().len() < 2 ==> r == Err::<u16, M2Error>(M2Error::UnexpectedEof),
    {
        match self.take(2) {
            Some(i) => {
                let b0 = self.data[i];
                let b1 = self.data[i + 1];
                Ok((b0 as u16) + 256 * (b1 as u16))
            },
            None => Err(M2Error::UnexpectedEof),
        }
    }

    /// Reads a little-endian `u32`.
    pub fn read_u32_le(&mut self) -> (r: Result<u32, M2Error>)
        ensures
            final(self).bytes() == old(self).bytes(),
            final(self).pos() <= final(self).bytes().len(),
            final(self).remaining() == rest_after(old(self).remaining(), 4),
            old(self).remaining().len() >= 4 ==> r == Ok::<u32, M2Error>(
                le_u32(old(self).remaining()),
            ),
            old(self).remaining().len() < 4 ==> r == Err::<u32, M2Error>(M2Error::UnexpectedEof),
    {
        match self.take(4) {
            Some(i) => {
                let b0 = self.data[i];
                let b1 = self.data[i + 1];
                let b2 = self.data[i + 2];
                let b3 = self.data[i + 3];
                Ok((b0 as u32) + 256 * (b1 as u32) + 65536 * (b2 as u32) + 16777216 * (b3 as u32))
            },
            None => Err(M2Error::UnexpectedEof),
        }
    }

    /// Reads a little-endian `i16`.
    pub fn read_i16_le(&mut self) -> (r: Result<i16, M2Error>)
        ensures
            final(self).bytes() == old(self).bytes(),
            final(self).pos() <= final(self).bytes().len(),
            final(self).remaining() == rest_after(old(self).remaining(), 2),
            old(self).remaining().len() >= 2 ==> r == Ok::<i16, M2Error>(
                i16_of_bits(le_u16(old(self).remaining())),
            ),
            old(self).remaining().len() < 2 ==> r == Err::<i16, M2Error>(M2Error::UnexpectedEof),
    {
        let u = self.read_u16_le()?;
        Ok(i16_from_bits(u))
    }

    /// Reads four bytes.
    pub fn read_bytes4(&mut self) -> (r: Result<[u8; 4], M2Error>)
        ensures
            final(self).bytes() == old(self).bytes(),
            final(self).pos() <= final(self).bytes().len(),
            final(self).remaining() == rest_after(old(self).remaining(), 4),
            old(self).remaining().len() >= 4 ==> r == Ok::<[u8; 4], M2Error>(
                [
                    old(self).remaining()[0],
                    old(self).remaining()[1],
                    old(self).remaining()[2],
                    old(self).remaining()[3],
                ],
            ),
            old(self).remaining().len() < 4 ==> r == Err::<[u8; 4], M2Error>(
                M2Error::UnexpectedEof,
            ),
    {
        let ghost s = self.remaining();
        proof {
            lemma_rest_after_rest_after(s, 1, 1);
            lemma_rest_after_rest_after(s, 2, 1);
            lemma_rest_after_rest_after(s, 3, 1);
        }
        let b0 = self.read_u8()?;
        let b1 = self.read_u8()?;
        let b2 = self.read_u8()?;
        let b3 = self.read_u8()?;
        Ok([b0, b1, b2, b3])
    }

    /// Reads a little-endian `u32`, or gives `d` when the input runs out.
    pub fn read_u32_or(&mut self, d: u32) -> (r: u32)
        ensures
            final(self).bytes() == old(self).bytes(),
            final(self).pos() <= final(self).bytes().len(),
            final(self).remaining() == rest_after(old(self).remaining(), 4),
            r == u32_or(old(self).remaining(), d),
    {
        match self.read_u32_le() {
            Ok(v) => v,
            Err(_) => d,
        }
    }

    /// Reads a little-endian `u32`, if four bytes are left.
    pub fn read_u32_opt(&mut self) -> (r: Option<u32>)
        ensures
            final(self).bytes() == old(self).bytes(),
            final(self).pos() <= final(self).bytes().len(),
            final(self).remaining() == rest_after(old(self).remaining(), 4),
            r == u32_opt(old(self).remaining()),
    {
        match self.read_u32_le() {
            Ok(v) => Some(v),
            Err(_) => None,
        }
    }

    /// Skips `n` bytes.
    pub fn skip_bytes(&mut self, n: usize) -> (r: Result<(), M2Error>)
        requires
            n > 0,
        ensures
            final(self).bytes() == old(self).bytes(),
            final(self).pos() <= final(self).bytes().len(),
            final(self).remaining() == rest_after(old(self).remaining(), n as int),
            old(self).remaining().len() >= n ==> r is Ok,
            old(self).remaining().len() < n ==> r == Err::<(), M2Error>(M2Error::UnexpectedEof),
    {
        match self.take(n) {
            Some(_) => Ok(()),
            None => Err(M2Error::UnexpectedEof),
        }
    }
}

} // verus!
