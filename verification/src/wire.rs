//! Wire primitives: big-endian integers, length-prefixed byte blobs and
//! UTF-8 strings, and the byte reader the decoders run on.
//!
//! Each primitive has three faces: a spec serializer (`spec_ser_*`) giving
//! the exact byte sequence, a spec parser (`spec_parse_*`) consuming from the
//! front of a byte sequence, and exec code proved against them. The
//! `lemma_parse_ser_*` lemmas state that parsing inverts serializing.

use vstd::prelude::*;
use vstd::utf8::{decode_utf8, encode_utf8, valid_utf8};
use crate::types::ProtocolError;

verus! {

broadcast use vstd::seq_lib::group_seq_properties;

/// The largest value a 32-bit length prefix can carry.
pub const MAX_WIRE_LEN: u64 = 0xffff_ffff;

/// The result of a spec-level parse: the value and the bytes left over, or
/// the protocol error the malformed input earns.
pub type SpecParse<T> = Result<(T, Seq<u8>), ProtocolError>;

// ----------------------------------------------------------------------
// Unsigned integers, big-endian.

/// The single byte of a `u8` on the wire.
pub open spec fn spec_ser_u8(v: u8) -> Seq<u8> {
    seq![v]
}

/// The four bytes of a `u32` on the wire, most significant first.
pub open spec fn spec_ser_u32(v: u32) -> Seq<u8> {
    seq![(v >> 24) as u8, (v >> 16) as u8, (v >> 8) as u8, v as u8]
}

/// The eight bytes of a `u64` on the wire, most significant first.
pub open spec fn spec_ser_u64(v: u64) -> Seq<u8> {
    seq![
        (v >> 56) as u8,
        (v >> 48) as u8,
        (v >> 40) as u8,
        (v >> 32) as u8,
        (v >> 24) as u8,
        (v >> 16) as u8,
        (v >> 8) as u8,
        v as u8,
    ]
}

/// The `u32` whose big-endian bytes are `b0 b1 b2 b3`.
pub open spec fn spec_u32_of(b0: u8, b1: u8, b2: u8, b3: u8) -> u32 {
    ((b0 as u32) << 24) | ((b1 as u32) << 16) | ((b2 as u32) << 8) | (b3 as u32)
}

/// The `u64` whose big-endian bytes are `b0 .. b7`.
pub open spec fn spec_u64_of(b0: u8, b1: u8, b2: u8, b3: u8, b4: u8, b5: u8, b6: u8, b7: u8) -> u64 {
    ((b0 as u64) << 56) | ((b1 as u64) << 48) | ((b2 as u64) << 40) | ((b3 as u64) << 32)
        | ((b4 as u64) << 24) | ((b5 as u64) << 16) | ((b6 as u64) << 8) | (b7 as u64)
}

pub open spec fn spec_parse_u8(b: Seq<u8>) -> SpecParse<u8> {
    if b.len() < 1 {
        Err(ProtocolError::InvalidLength)
    } else {
        Ok((b[0], b.skip(1)))
    }
}

pub open spec fn spec_parse_u32(b: Seq<u8>) -> SpecParse<u32> {
    if b.len() < 4 {
        Err(ProtocolError::InvalidLength)
    } else {
        Ok((spec_u32_of(b[0], b[1], b[2], b[3]), b.skip(4)))
    }
}

pub open spec fn spec_parse_u64(b: Seq<u8>) -> SpecParse<u64> {
    if b.len() < 8 {
        Err(ProtocolError::InvalidLength)
    } else {
        Ok((spec_u64_of(b[0], b[1], b[2], b[3], b[4], b[5], b[6], b[7]), b.skip(8)))
    }
}

/// Parsing inverts serializing for `u8`.
pub proof fn lemma_parse_ser_u8(v: u8, rest: Seq<u8>)
    ensures
        spec_parse_u8(spec_ser_u8(v) + rest) == Ok::<_, ProtocolError>((v, rest)),
{
    assert((spec_ser_u8(v) + rest).skip(1) =~= rest);
}

/// Parsing inverts serializing for `u32`.
pub proof fn lemma_parse_ser_u32(v: u32, rest: Seq<u8>)
    ensures
        spec_parse_u32(spec_ser_u32(v) + rest) == Ok::<_, ProtocolError>((v, rest)),
{
    let b = spec_ser_u32(v) + rest;
    assert(b.skip(4) =~= rest);
    assert(spec_u32_of((v >> 24) as u8, (v >> 16) as u8, (v >> 8) as u8, v as u8) == v)
        by (bit_vector);
}

/// Parsing inverts serializing for `u64`.
pub proof fn lemma_parse_ser_u64(v: u64, rest: Seq<u8>)
    ensures
        spec_parse_u64(spec_ser_u64(v) + rest) == Ok::<_, ProtocolError>((v, rest)),
{
    let b = spec_ser_u64(v) + rest;
    assert(b.skip(8) =~= rest);
    assert(spec_u64_of(
        (v >> 56) as u8,
        (v >> 48) as u8,
        (v >> 40) as u8,
        (v >> 32) as u8,
        (v >> 24) as u8,
        (v >> 16) as u8,
        (v >> 8) as u8,
        v as u8,
    ) == v) by (bit_vector);
}

// ----------------------------------------------------------------------
// Length-prefixed byte blobs and UTF-8 strings.

/// A byte blob on the wire: a 32-bit count, then the bytes.
pub open spec fn spec_ser_bytes(b: Seq<u8>) -> Seq<u8> {
    spec_ser_u32(b.len() as u32) + b
}

/// Whether a blob fits behind its 32-bit length prefix.
pub open spec fn bytes_len_ok(b: Seq<u8>) -> bool {
    b.len() <= MAX_WIRE_LEN
}

/// A string on the wire: its UTF-8 encoding as a length-prefixed blob.
pub open spec fn spec_ser_string(s: Seq<char>) -> Seq<u8> {
    spec_ser_bytes(encode_utf8(s))
}

/// Whether a string's UTF-8 encoding fits behind its length prefix.
pub open spec fn string_len_ok(s: Seq<char>) -> bool {
    bytes_len_ok(encode_utf8(s))
}

pub open spec fn spec_parse_bytes(b: Seq<u8>) -> SpecParse<Seq<u8>> {
    match spec_parse_u32(b) {
        Ok((n, rest)) => {
            if rest.len() < n {
                Err(ProtocolError::InvalidLength)
            } else {
                Ok((rest.take(n as int), rest.skip(n as int)))
            }
        },
        Err(e) => Err(e),
    }
}

pub open spec fn spec_parse_string(b: Seq<u8>) -> SpecParse<Seq<char>> {
    match spec_parse_bytes(b) {
        Ok((bs, rest)) => {
            if valid_utf8(bs) {
                Ok((decode_utf8(bs), rest))
            } else {
                Err(ProtocolError::InvalidUtf8)
            }
        },
        Err(e) => Err(e),
    }
}

/// Parsing inverts serializing for byte blobs that fit their prefix.
pub proof fn lemma_parse_ser_bytes(b: Seq<u8>, rest: Seq<u8>)
    requires
        bytes_len_ok(b),
    ensures
        spec_parse_bytes(spec_ser_bytes(b) + rest) == Ok::<_, ProtocolError>((b, rest)),
{
    let n = b.len() as u32;
    assert(spec_ser_bytes(b) + rest =~= spec_ser_u32(n) + (b + rest));
    lemma_parse_ser_u32(n, b + rest);
    assert((b + rest).take(n as int) =~= b);
    assert((b + rest).skip(n as int) =~= rest);
}

/// A UTF-8 encoding takes at most four bytes per character, so short
/// strings always fit behind a 32-bit length prefix.
pub proof fn lemma_encode_utf8_len(s: Seq<char>)
    ensures
        encode_utf8(s).len() <= 4 * s.len(),
    decreases s.len(),
{
    if s.len() == 0 {
    } else {
        lemma_encode_utf8_len(s.drop_first());
    }
}

/// Parsing inverts serializing for strings whose encoding fits its prefix.
pub proof fn lemma_parse_ser_string(s: Seq<char>, rest: Seq<u8>)
    requires
        string_len_ok(s),
    ensures
        spec_parse_string(spec_ser_string(s) + rest) == Ok::<_, ProtocolError>((s, rest)),
{
    broadcast use vstd::utf8::encode_utf8_valid_utf8, vstd::utf8::encode_utf8_decode_utf8;

    lemma_parse_ser_bytes(encode_utf8(s), rest);
}

// ----------------------------------------------------------------------
// Exec reading.

/// A cursor over an input buffer. `remaining()` is the unconsumed suffix;
/// every read is specified against the `spec_parse_*` function on it.
pub struct Reader<'a> {
    buf: &'a [u8],
    pos: usize,
}

impl<'a> Reader<'a> {
    /// The bytes not yet consumed.
    pub closed spec fn remaining(&self) -> Seq<u8> {
        self.buf@.skip(self.pos as int)
    }

    pub closed spec fn wf(&self) -> bool {
        self.pos <= self.buf@.len()
    }

    pub fn new(buf: &'a [u8]) -> (r: Self)
        ensures
            r.wf(),
            r.remaining() == buf@,
    {
        let r = Reader { buf, pos: 0 };
        proof {
            assert(r.remaining() =~= buf@);
        }
        r
    }

    /// How many bytes are left.
    pub fn len(&self) -> (n: usize)
        requires
            self.wf(),
        ensures
            n == self.remaining().len(),
    {
        self.buf.len() - self.pos
    }

    pub fn read_u8(&mut self) -> (r: Result<u8, ProtocolError>)
        requires
            old(self).wf(),
        ensures
            final(self).wf(),
            match r {
                Ok(v) => spec_parse_u8(old(self).remaining()) == Ok::<_, ProtocolError>((
                    v,
                    final(self).remaining(),
                )),
                Err(e) => spec_parse_u8(old(self).remaining()) == Err::<(u8, Seq<u8>), _>(e),
            },
    {
        if self.buf.len() - self.pos < 1 {
            return Err(ProtocolError::InvalidLength);
        }
        let v = self.buf[self.pos];
        self.pos = self.pos + 1;
        proof {
            assert(old(self).remaining().skip(1) =~= self.remaining());
        }
        Ok(v)
    }

    pub fn read_u32(&mut self) -> (r: Result<u32, ProtocolError>)
        requires
            old(self).wf(),
        ensures
            final(self).wf(),
            match r {
                Ok(v) => spec_parse_u32(old(self).remaining()) == Ok::<_, ProtocolError>((
                    v,
                    final(self).remaining(),
                )),
                Err(e) => spec_parse_u32(old(self).remaining()) == Err::<(u32, Seq<u8>), _>(e),
            },
    {
        if self.buf.len() - self.pos < 4 {
            return Err(ProtocolError::InvalidLength);
        }
        let b0 = self.buf[self.pos];
        let b1 = self.buf[self.pos + 1];
        let b2 = self.buf[self.pos + 2];
        let b3 = self.buf[self.pos + 3];
        let v = ((b0 as u32) << 24) | ((b1 as u32) << 16) | ((b2 as u32) << 8) | (b3 as u32);
        self.pos = self.pos + 4;
        proof {
            assert(old(self).remaining().skip(4) =~= self.remaining());
        }
        Ok(v)
    }

    pub fn read_u64(&mut self) -> (r: Result<u64, ProtocolError>)
        requires
            old(self).wf(),
        ensures
            final(self).wf(),
            match r {
                Ok(v) => spec_parse_u64(old(self).remaining()) == Ok::<_, ProtocolError>((
                    v,
                    final(self).remaining(),
                )),
                Err(e) => spec_parse_u64(old(self).remaining()) == Err::<(u64, Seq<u8>), _>(e),
            },
    {
        if self.buf.len() - self.pos < 8 {
            return Err(ProtocolError::InvalidLength);
        }
        let b0 = self.buf[self.pos];
        let b1 = self.buf[self.pos + 1];
        let b2 = self.buf[self.pos + 2];
        let b3 = self.buf[self.pos + 3];
        let b4 = self.buf[self.pos + 4];
        let b5 = self.buf[self.pos + 5];
        let b6 = self.buf[self.pos + 6];
        let b7 = self.buf[self.pos + 7];
        let v = ((b0 as u64) << 56) | ((b1 as u64) << 48) | ((b2 as u64) << 40) | ((b3 as u64)
            << 32) | ((b4 as u64) << 24) | ((b5 as u64) << 16) | ((b6 as u64) << 8) | (b7 as u64);
        self.pos = self.pos + 8;
        proof {
            assert(old(self).remaining().skip(8) =~= self.remaining());
        }
        Ok(v)
    }

    /// Reads a length-prefixed byte blob.
    pub fn read_bytes(&mut self) -> (r: Result<Vec<u8>, ProtocolError>)
        requires
            old(self).wf(),
        ensures
            final(self).wf(),
            match r {
                Ok(v) => spec_parse_bytes(old(self).remaining()) == Ok::<_, ProtocolError>((
                    v@,
                    final(self).remaining(),
                )),
                Err(e) => spec_parse_bytes(old(self).remaining()) == Err::<(Seq<u8>, Seq<u8>), _>(
                    e,
                ),
            },
    {
        let ghost orig = old(self).remaining();
        let n = match self.read_u32() {
            Ok(n) => n,
            Err(e) => {
                return Err(e);
            },
        };
        let n = n as usize;
        if self.buf.len() - self.pos < n {
            return Err(ProtocolError::InvalidLength);
        }
        let ghost mid = self.remaining();
        let piece = vstd::slice::slice_subrange(self.buf, self.pos, self.pos + n);
        let v = vstd::slice::slice_to_vec(piece);
        self.pos = self.pos + n;
        proof {
            assert(v@ =~= mid.take(n as int));
            assert(self.remaining() =~= mid.skip(n as int));
        }
        Ok(v)
    }

    /// Reads a length-prefixed UTF-8 string; invalid UTF-8 is rejected.
    pub fn read_string(&mut self) -> (r: Result<String, ProtocolError>)
        requires
            old(self).wf(),
        ensures
            final(self).wf(),
            match r {
                Ok(v) => spec_parse_string(old(self).remaining()) == Ok::<_, ProtocolError>((
                    v@,
                    final(self).remaining(),
                )),
                Err(e) => spec_parse_string(old(self).remaining()) == Err::<
                    (Seq<char>, Seq<u8>),
                    _,
                >(e),
            },
    {
        let bs = match self.read_bytes() {
            Ok(bs) => bs,
            Err(e) => {
                return Err(e);
            },
        };
        match string_from_utf8(bs) {
            Some(s) => Ok(s),
            None => Err(ProtocolError::InvalidUtf8),
        }
    }
}

/// Relies on `String::from_utf8`: it succeeds exactly on valid UTF-8 and
/// returns the characters that the bytes encode.
#[verifier::external_body]
fn string_from_utf8(bytes: Vec<u8>) -> (r: Option<String>)
    ensures
        match r {
            Some(s) => valid_utf8(bytes@) && s@ == decode_utf8(bytes@),
            None => !valid_utf8(bytes@),
        },
{
    String::from_utf8(bytes).ok()
}

// ----------------------------------------------------------------------
// Exec writing.

/// Appends the wire form of a `u8`.
pub fn write_u8(out: &mut Vec<u8>, v: u8)
    ensures
        final(out)@ == old(out)@ + spec_ser_u8(v),
{
    out.push(v);
    proof {
        assert(out@ =~= old(out)@ + spec_ser_u8(v));
    }
}

/// Appends the wire form of a `u32`, most significant byte first.
pub fn write_u32(out: &mut Vec<u8>, v: u32)
    ensures
        final(out)@ == old(out)@ + spec_ser_u32(v),
{
    out.push((v >> 24) as u8);
    out.push((v >> 16) as u8);
    out.push((v >> 8) as u8);
    out.push(v as u8);
    proof {
        assert(out@ =~= old(out)@ + spec_ser_u32(v));
    }
}

/// Appends the wire form of a `u64`, most significant byte first.
pub fn write_u64(out: &mut Vec<u8>, v: u64)
    ensures
        final(out)@ == old(out)@ + spec_ser_u64(v),
{
    out.push((v >> 56) as u8);
    out.push((v >> 48) as u8);
    out.push((v >> 40) as u8);
    out.push((v >> 32) as u8);
    out.push((v >> 24) as u8);
    out.push((v >> 16) as u8);
    out.push((v >> 8) as u8);
    out.push(v as u8);
    proof {
        assert(out@ =~= old(out)@ + spec_ser_u64(v));
    }
}

/// Appends a length-prefixed byte blob, or fails when the blob is too long
/// for a 32-bit prefix.
pub fn write_bytes(out: &mut Vec<u8>, b: &[u8]) -> (r: Result<(), ProtocolError>)
    ensures
        match r {
            Ok(()) => bytes_len_ok(b@) && final(out)@ == old(out)@ + spec_ser_bytes(b@),
            Err(e) => !bytes_len_ok(b@) && e == ProtocolError::InvalidLength,
        },
{
    if b.len() as u64 > MAX_WIRE_LEN {
        return Err(ProtocolError::InvalidLength);
    }
    write_u32(out, b.len() as u32);
    out.extend_from_slice(b);
    proof {
        assert(out@ =~= old(out)@ + spec_ser_bytes(b@));
    }
    Ok(())
}

/// Appends a length-prefixed UTF-8 string, or fails when its encoding is too
/// long for a 32-bit prefix.
pub fn write_string(out: &mut Vec<u8>, s: &str) -> (r: Result<(), ProtocolError>)
    ensures
        match r {
            Ok(()) => string_len_ok(s@) && final(out)@ == old(out)@ + spec_ser_string(s@),
            Err(e) => !string_len_ok(s@) && e == ProtocolError::InvalidLength,
        },
{
    write_bytes(out, s.as_bytes())
}

} // verus!
