//! The wire codec: every composite value writes and reads its own fields in
//! a fixed order with a fixed discriminant.
//!
//! Each type implements [`Serialize`] and [`Deserialize`]. The trait
//! contracts tie the exec code to two spec functions, `spec_ser` and
//! `spec_parse`; `lemma_*_round_trip` proofs then state, purely at the spec
//! level, that parsing inverts serializing.

use vstd::prelude::*;
use vstd::utf8::encode_utf8;
use crate::types::{
    Attrs, AttrsV, Attrsflags, ClientPacketV, Extension, ExtensionV, ExtendedAttr, ExtendedAttrV,
    ExtendedRequest, ExtendedRequestType, ExtendedRequestV, FsStats, Name, NameV, Pflags,
    ProtocolError, ServerPacketV, SftpClientPacket, SftpServerPacket, StatusCode, VecEos, VecU8,
};
use crate::wire::{
    MAX_WIRE_LEN, Reader, SpecParse, bytes_len_ok, lemma_encode_utf8_len, lemma_parse_ser_string,
    lemma_parse_ser_u32, lemma_parse_ser_u64, spec_parse_bytes, spec_parse_string, spec_parse_u32,
    spec_parse_u64, spec_ser_bytes, spec_ser_string, spec_ser_u32, spec_ser_u64, string_len_ok,
    write_bytes, write_string, write_u32, write_u64,
};

verus! {

/// A value that can be written to the wire.
///
/// `spec_ser` gives the exact bytes; `len_ok` says that every length in the
/// value fits behind its 32-bit wire prefix, which is exactly when
/// `serialize` succeeds.
pub trait Serialize: View + Sized {
    /// The exact bytes of the value on the wire.
    spec fn spec_ser(v: Self::V) -> Seq<u8>;

    /// Whether every length in the value fits its 32-bit wire prefix.
    spec fn len_ok(v: Self::V) -> bool;

    /// Appends the wire form of `self` to `out`; fails, leaving `out`
    /// unspecified, exactly when some length does not fit the wire.
    fn serialize(&self, out: &mut Vec<u8>) -> (r: Result<(), ProtocolError>)
        ensures
            r is Ok ==> Self::len_ok(self@) && final(out)@ == old(out)@ + Self::spec_ser(self@),
            r is Err ==> !Self::len_ok(self@) && r == Err::<(), ProtocolError>(
                ProtocolError::InvalidLength,
            ),
    ;
}

/// A value that can be read off the wire.
///
/// `spec_parse` consumes one value from the front of a byte sequence and is
/// exactly what `deserialize` computes, errors included.
pub trait Deserialize: View + Sized {
    /// Parses one value off the front of `b`: the value and the bytes left,
    /// or the error the malformed input earns.
    spec fn spec_parse(b: Seq<u8>) -> SpecParse<Self::V>;

    /// Reads one value; the reader is left on the first unconsumed byte.
    fn deserialize(r: &mut Reader<'_>) -> (res: Result<Self, ProtocolError>)
        requires
            old(r).wf(),
        ensures
            final(r).wf(),
            match res {
                Ok(v) => Self::spec_parse(old(r).remaining()) == Ok::<_, ProtocolError>((
                    v@,
                    final(r).remaining(),
                )),
                Err(e) => Self::spec_parse(old(r).remaining()) == Err::<(Self::V, Seq<u8>), _>(e),
            },
    ;
}

// ----------------------------------------------------------------------
// Lists.

/// The views of a vector's elements.
pub open spec fn view_elems<T: View>(items: Vec<T>) -> Seq<T::V> {
    items@.map_values(|t: T| t@)
}

/// Sequence concatenation is associative.
pub proof fn lemma_assoc<A>(a: Seq<A>, b: Seq<A>, c: Seq<A>)
    ensures
        (a + b) + c == a + (b + c),
{
    assert((a + b) + c =~= a + (b + c));
}

/// The empty sequence is a right identity of concatenation.
pub proof fn lemma_add_empty<A>(a: Seq<A>)
    ensures
        a + Seq::<A>::empty() == a,
{
    assert(a + Seq::<A>::empty() =~= a);
}

/// The concatenated wire forms of a sequence of values, with no count.
pub open spec fn spec_ser_elems<T: Serialize>(s: Seq<T::V>) -> Seq<u8>
    decreases s.len(),
{
    if s.len() == 0 {
        Seq::empty()
    } else {
        T::spec_ser(s[0]) + spec_ser_elems::<T>(s.skip(1))
    }
}

/// Whether every element of the sequence fits the wire.
pub open spec fn elems_len_ok<T: Serialize>(s: Seq<T::V>) -> bool {
    forall|i: int| 0 <= i < s.len() ==> T::len_ok(#[trigger] s[i])
}

/// Parses exactly `n` values off the front of `b`.
pub open spec fn spec_parse_elems<T: Deserialize>(b: Seq<u8>, n: nat) -> SpecParse<Seq<T::V>>
    decreases n,
{
    if n == 0 {
        Ok((Seq::empty(), b))
    } else {
        match T::spec_parse(b) {
            Ok((v, rest)) => match spec_parse_elems::<T>(rest, (n - 1) as nat) {
                Ok((s, rest2)) => Ok((seq![v] + s, rest2)),
                Err(e) => Err(e),
            },
            Err(e) => Err(e),
        }
    }
}

/// Parses values off the front of `b` until `b` is exhausted. Used only for
/// the extension list of `Init` and `Version`, which carries no count.
pub open spec fn spec_parse_eos<T: Deserialize>(b: Seq<u8>) -> Result<Seq<T::V>, ProtocolError>
    decreases b.len(),
{
    if b.len() == 0 {
        Ok(Seq::empty())
    } else {
        match T::spec_parse(b) {
            Ok((v, rest)) => {
                if rest.len() < b.len() {
                    match spec_parse_eos::<T>(rest) {
                        Ok(s) => Ok(seq![v] + s),
                        Err(e) => Err(e),
                    }
                } else {
                    Err(ProtocolError::InvalidLength)
                }
            },
            Err(e) => Err(e),
        }
    }
}

/// Splitting off the first `i + 1` elements serializes to the first `i`
/// elements followed by element `i`.
proof fn lemma_ser_elems_take<T: Serialize>(s: Seq<T::V>, i: int)
    requires
        0 <= i < s.len(),
    ensures
        spec_ser_elems::<T>(s.take(i + 1)) == spec_ser_elems::<T>(s.take(i)) + T::spec_ser(s[i]),
    decreases i,
{
    broadcast use vstd::seq_lib::group_seq_properties;

    if i == 0 {
        assert(s.take(1) =~= seq![s[0]]);
        assert(s.take(1).skip(1) =~= Seq::<T::V>::empty());
        assert(s.take(0) =~= Seq::<T::V>::empty());
        assert(spec_ser_elems::<T>(Seq::<T::V>::empty()) =~= Seq::<u8>::empty());
        assert(spec_ser_elems::<T>(s.take(1)) =~= T::spec_ser(s[0]));
        assert(spec_ser_elems::<T>(s.take(0)) + T::spec_ser(s[0]) =~= T::spec_ser(s[0]));
    } else {
        let t = s.skip(1);
        lemma_ser_elems_take::<T>(t, i - 1);
        assert(s.take(i + 1).skip(1) =~= t.take(i));
        assert(s.take(i).skip(1) =~= t.take(i - 1));
        assert(s.take(i + 1)[0] == s[0]);
        assert(s.take(i)[0] == s[0]);
        assert(t[i - 1] == s[i]);
        assert(T::spec_ser(s[0]) + (spec_ser_elems::<T>(t.take(i - 1)) + T::spec_ser(s[i]))
            =~= (T::spec_ser(s[0]) + spec_ser_elems::<T>(t.take(i - 1))) + T::spec_ser(s[i]));
    }
}

/// Appends the wire forms of all elements, with no count.
pub fn serialize_elems<T: Serialize>(items: &Vec<T>, out: &mut Vec<u8>) -> (r: Result<
    (),
    ProtocolError,
>)
    ensures
        r is Ok ==> elems_len_ok::<T>(view_elems(*items)) && final(out)@ == old(out)@
            + spec_ser_elems::<T>(view_elems(*items)),
        r is Err ==> !elems_len_ok::<T>(view_elems(*items)) && r == Err::<(), ProtocolError>(
            ProtocolError::InvalidLength,
        ),
{
    let ghost s = view_elems(*items);
    let ghost out0 = out@;
    let mut i: usize = 0;
    while i < items.len()
        invariant
            i <= items.len(),
            s == view_elems(*items),
            s.len() == items@.len(),
            out@ == out0 + spec_ser_elems::<T>(s.take(i as int)),
            forall|j: int| 0 <= j < i ==> T::len_ok(#[trigger] s[j]),
        decreases items.len() - i,
    {
        proof {
            assert(s[i as int] == items@[i as int]@);
        }
        match items[i].serialize(out) {
            Ok(()) => {},
            Err(e) => {
                proof {
                    assert(!T::len_ok(s[i as int]));
                }
                return Err(e);
            },
        }
        proof {
            lemma_ser_elems_take::<T>(s, i as int);
            assert(out@ =~= out0 + spec_ser_elems::<T>(s.take(i + 1)));
        }
        i = i + 1;
    }
    proof {
        assert(s.take(s.len() as int) =~= s);
    }
    Ok(())
}

/// Reads exactly `n` values.
pub fn deserialize_elems<T: Deserialize>(r: &mut Reader<'_>, n: u32) -> (res: Result<
    Vec<T>,
    ProtocolError,
>)
    requires
        old(r).wf(),
    ensures
        final(r).wf(),
        match res {
            Ok(v) => spec_parse_elems::<T>(old(r).remaining(), n as nat) == Ok::<_, ProtocolError>(
                (view_elems(v), final(r).remaining()),
            ),
            Err(e) => spec_parse_elems::<T>(old(r).remaining(), n as nat) == Err::<
                (Seq<T::V>, Seq<u8>),
                _,
            >(e),
        },
{
    let ghost orig = old(r).remaining();
    let mut acc: Vec<T> = Vec::new();
    let mut i: u32 = 0;
    proof {
        assert(view_elems(acc) =~= Seq::<T::V>::empty());
    }
    while i < n
        invariant
            r.wf(),
            i <= n,
            orig == old(r).remaining(),
            spec_parse_elems::<T>(orig, n as nat) == (match spec_parse_elems::<T>(
                r.remaining(),
                (n - i) as nat,
            ) {
                Ok((s, rest)) => Ok::<_, ProtocolError>((view_elems(acc) + s, rest)),
                Err(e) => Err(e),
            }),
        decreases n - i,
    {
        let ghost pre = r.remaining();
        let ghost acc0 = acc@;
        match T::deserialize(r) {
            Ok(v) => {
                acc.push(v);
                proof {
                    let sub = spec_parse_elems::<T>(r.remaining(), (n - i - 1) as nat);
                    assert(spec_parse_elems::<T>(pre, (n - i) as nat) == (match sub {
                        Ok((s, rest)) => Ok::<_, ProtocolError>((seq![v@] + s, rest)),
                        Err(e) => Err(e),
                    }));
                    assert(view_elems(acc) =~= view_elems_of(acc0).push(v@));
                    if let Ok((s, rest)) = sub {
                        assert(view_elems_of(acc0) + (seq![v@] + s) =~= view_elems_of(acc0).push(
                            v@,
                        ) + s);
                    }
                }
            },
            Err(e) => {
                proof {
                    assert(spec_parse_elems::<T>(pre, (n - i) as nat) == Err::<
                        (Seq<T::V>, Seq<u8>),
                        _,
                    >(e));
                }
                return Err(e);
            },
        }
        i = i + 1;
    }
    proof {
        assert(spec_parse_elems::<T>(r.remaining(), 0) == Ok::<_, ProtocolError>((
            Seq::<T::V>::empty(),
            r.remaining(),
        )));
        assert(view_elems(acc) + Seq::<T::V>::empty() =~= view_elems(acc));
    }
    Ok(acc)
}

/// The views of a sequence of exec values; `view_elems` on the vector's
/// contents.
pub open spec fn view_elems_of<T: View>(s: Seq<T>) -> Seq<T::V> {
    s.map_values(|t: T| t@)
}

/// Reads values until the input is exhausted.
pub fn deserialize_eos<T: Deserialize>(r: &mut Reader<'_>) -> (res: Result<Vec<T>, ProtocolError>)
    requires
        old(r).wf(),
    ensures
        final(r).wf(),
        match res {
            Ok(v) => spec_parse_eos::<T>(old(r).remaining()) == Ok::<_, ProtocolError>(
                view_elems(v),
            ) && final(r).remaining() == Seq::<u8>::empty(),
            Err(e) => spec_parse_eos::<T>(old(r).remaining()) == Err::<Seq<T::V>, _>(e),
        },
{
    let ghost orig = old(r).remaining();
    let mut acc: Vec<T> = Vec::new();
    proof {
        assert(view_elems(acc) =~= Seq::<T::V>::empty());
    }
    loop
        invariant
            r.wf(),
            orig == old(r).remaining(),
            spec_parse_eos::<T>(orig) == (match spec_parse_eos::<T>(r.remaining()) {
                Ok(s) => Ok::<_, ProtocolError>(view_elems(acc) + s),
                Err(e) => Err(e),
            }),
        decreases r.remaining().len(),
    {
        if r.len() == 0 {
            proof {
                assert(spec_parse_eos::<T>(r.remaining()) == Ok::<_, ProtocolError>(
                    Seq::<T::V>::empty(),
                ));
                assert(view_elems(acc) + Seq::<T::V>::empty() =~= view_elems(acc));
            }
            return Ok(acc);
        }
        let ghost pre = r.remaining();
        let before = r.len();
        let ghost acc0 = acc@;
        match T::deserialize(r) {
            Ok(v) => {
                if r.len() >= before {
                    proof {
                        assert(spec_parse_eos::<T>(pre) == Err::<Seq<T::V>, _>(
                            ProtocolError::InvalidLength,
                        ));
                    }
                    return Err(ProtocolError::InvalidLength);
                }
                acc.push(v);
                proof {
                    let sub = spec_parse_eos::<T>(r.remaining());
                    assert(spec_parse_eos::<T>(pre) == (match sub {
                        Ok(s) => Ok::<_, ProtocolError>(seq![v@] + s),
                        Err(e) => Err(e),
                    }));
                    assert(view_elems(acc) =~= view_elems_of(acc0).push(v@));
                    if let Ok(s) = sub {
                        assert(view_elems_of(acc0) + (seq![v@] + s) =~= view_elems_of(acc0).push(
                            v@,
                        ) + s);
                    }
                }
            },
            Err(e) => {
                proof {
                    assert(spec_parse_eos::<T>(pre) == Err::<Seq<T::V>, _>(e));
                }
                return Err(e);
            },
        }
    }
}

// ----------------------------------------------------------------------
// Flag words.
//
// Presence and open-flag words are stated arithmetically: bit `i` of `w` is
// `(w / 2^i) % 2`. This coincides with the usual mask tests for every word
// and keeps the proofs in linear arithmetic.

/// The 32-bit word carrying the six open flags, bits 0 to 5.
pub open spec fn spec_pflags_word(f: Pflags) -> u32 {
    ((if f.read { 1u32 } else { 0u32 }) + (if f.write { 2u32 } else { 0u32 }) + (if f.append {
        4u32
    } else {
        0u32
    }) + (if f.creat { 8u32 } else { 0u32 }) + (if f.trunc { 16u32 } else { 0u32 }) + (if f.excl {
        32u32
    } else {
        0u32
    })) as u32
}

/// The open flags named by a 32-bit word; bits above 5 are ignored.
pub open spec fn spec_pflags_of(w: u32) -> Pflags {
    Pflags {
        read: w % 2 == 1,
        write: (w / 2) % 2 == 1,
        append: (w / 4) % 2 == 1,
        creat: (w / 8) % 2 == 1,
        trunc: (w / 16) % 2 == 1,
        excl: (w / 32) % 2 == 1,
    }
}

/// The 32-bit word carrying the presence flags: bits 0 to 3 and bit 31.
pub open spec fn spec_attrsflags_word(f: Attrsflags) -> u32 {
    ((if f.size { 1u32 } else { 0u32 }) + (if f.uidgid { 2u32 } else { 0u32 }) + (if f.permissions {
        4u32
    } else {
        0u32
    }) + (if f.acmodtime { 8u32 } else { 0u32 }) + (if f.extended {
        0x8000_0000u32
    } else {
        0u32
    })) as u32
}

/// The presence flags named by a 32-bit word; other bits are ignored.
pub open spec fn spec_attrsflags_of(w: u32) -> Attrsflags {
    Attrsflags {
        size: w % 2 == 1,
        uidgid: (w / 2) % 2 == 1,
        permissions: (w / 4) % 2 == 1,
        acmodtime: (w / 8) % 2 == 1,
        extended: (w / 0x8000_0000) % 2 == 1,
    }
}

impl Pflags {
    /// Packs the flags into their wire word.
    pub fn to_word(&self) -> (w: u32)
        ensures
            w == spec_pflags_word(*self),
    {
        let mut w: u32 = 0;
        if self.read {
            w = w + 1;
        }
        if self.write {
            w = w + 2;
        }
        if self.append {
            w = w + 4;
        }
        if self.creat {
            w = w + 8;
        }
        if self.trunc {
            w = w + 16;
        }
        if self.excl {
            w = w + 32;
        }
        w
    }

    /// Reads the flags out of a wire word, ignoring unknown bits.
    pub fn from_word(w: u32) -> (f: Pflags)
        ensures
            f == spec_pflags_of(w),
    {
        Pflags {
            read: w % 2 == 1,
            write: (w / 2) % 2 == 1,
            append: (w / 4) % 2 == 1,
            creat: (w / 8) % 2 == 1,
            trunc: (w / 16) % 2 == 1,
            excl: (w / 32) % 2 == 1,
        }
    }
}

impl Attrsflags {
    /// Packs the presence flags into their wire word.
    pub fn to_word(&self) -> (w: u32)
        ensures
            w == spec_attrsflags_word(*self),
    {
        let mut w: u32 = 0;
        if self.size {
            w = w + 1;
        }
        if self.uidgid {
            w = w + 2;
        }
        if self.permissions {
            w = w + 4;
        }
        if self.acmodtime {
            w = w + 8;
        }
        if self.extended {
            w = w + 0x8000_0000;
        }
        w
    }

    /// Reads the presence flags out of a wire word, ignoring unknown bits.
    pub fn from_word(w: u32) -> (f: Attrsflags)
        ensures
            f == spec_attrsflags_of(w),
    {
        Attrsflags {
            size: w % 2 == 1,
            uidgid: (w / 2) % 2 == 1,
            permissions: (w / 4) % 2 == 1,
            acmodtime: (w / 8) % 2 == 1,
            extended: (w / 0x8000_0000) % 2 == 1,
        }
    }
}

/// Packing the open flags and unpacking the word gives back the same flags:
/// no boolean is lost or invented.
pub proof fn lemma_pflags_word_round_trip(f: Pflags)
    ensures
        spec_pflags_of(spec_pflags_word(f)) == f,
{
}

/// Packing the presence flags and unpacking the word gives back the same
/// flags: no boolean is lost or invented.
pub proof fn lemma_attrsflags_word_round_trip(f: Attrsflags)
    ensures
        spec_attrsflags_of(spec_attrsflags_word(f)) == f,
{
}

impl Serialize for Pflags {
    open spec fn spec_ser(v: Pflags) -> Seq<u8> {
        spec_ser_u32(spec_pflags_word(v))
    }

    open spec fn len_ok(v: Pflags) -> bool {
        true
    }

    fn serialize(&self, out: &mut Vec<u8>) -> (r: Result<(), ProtocolError>) {
        write_u32(out, self.to_word());
        Ok(())
    }
}

impl Deserialize for Pflags {
    open spec fn spec_parse(b: Seq<u8>) -> SpecParse<Pflags> {
        match spec_parse_u32(b) {
            Ok((w, rest)) => Ok((spec_pflags_of(w), rest)),
            Err(e) => Err(e),
        }
    }

    fn deserialize(r: &mut Reader<'_>) -> (res: Result<Self, ProtocolError>) {
        match r.read_u32() {
            Ok(w) => Ok(Pflags::from_word(w)),
            Err(e) => Err(e),
        }
    }
}

impl Serialize for Attrsflags {
    open spec fn spec_ser(v: Attrsflags) -> Seq<u8> {
        spec_ser_u32(spec_attrsflags_word(v))
    }

    open spec fn len_ok(v: Attrsflags) -> bool {
        true
    }

    fn serialize(&self, out: &mut Vec<u8>) -> (r: Result<(), ProtocolError>) {
        write_u32(out, self.to_word());
        Ok(())
    }
}

impl Deserialize for Attrsflags {
    open spec fn spec_parse(b: Seq<u8>) -> SpecParse<Attrsflags> {
        match spec_parse_u32(b) {
            Ok((w, rest)) => Ok((spec_attrsflags_of(w), rest)),
            Err(e) => Err(e),
        }
    }

    fn deserialize(r: &mut Reader<'_>) -> (res: Result<Self, ProtocolError>) {
        match r.read_u32() {
            Ok(w) => Ok(Attrsflags::from_word(w)),
            Err(e) => Err(e),
        }
    }
}

/// Parsing inverts serializing for the open-flags word.
pub proof fn lemma_rt_pflags(v: Pflags, rest: Seq<u8>)
    ensures
        <Pflags as Deserialize>::spec_parse(<Pflags as Serialize>::spec_ser(v) + rest) == Ok::<
            _,
            ProtocolError,
        >((v, rest)),
{
    lemma_parse_ser_u32(spec_pflags_word(v), rest);
    lemma_pflags_word_round_trip(v);
}

/// Parsing inverts serializing for the presence-flags word.
pub proof fn lemma_rt_attrsflags(v: Attrsflags, rest: Seq<u8>)
    ensures
        <Attrsflags as Deserialize>::spec_parse(<Attrsflags as Serialize>::spec_ser(v) + rest)
            == Ok::<_, ProtocolError>((v, rest)),
{
    lemma_parse_ser_u32(spec_attrsflags_word(v), rest);
    lemma_attrsflags_word_round_trip(v);
}

// ----------------------------------------------------------------------
// Status codes.

/// The wire value of each status code; fixed by the protocol.
pub open spec fn spec_status_code_word(c: StatusCode) -> u32 {
    match c {
        StatusCode::Okay => 0,
        StatusCode::Eof => 1,
        StatusCode::NoSuchFile => 2,
        StatusCode::PermissionDenied => 3,
        StatusCode::Failure => 4,
        StatusCode::BadMessage => 5,
        StatusCode::NoConnection => 6,
        StatusCode::ConnectionLost => 7,
        StatusCode::OpUnsupported => 8,
    }
}

impl StatusCode {
    /// The wire value of this status code.
    pub fn to_word(&self) -> (w: u32)
        ensures
            w == spec_status_code_word(*self),
    {
        match self {
            StatusCode::Okay => 0,
            StatusCode::Eof => 1,
            StatusCode::NoSuchFile => 2,
            StatusCode::PermissionDenied => 3,
            StatusCode::Failure => 4,
            StatusCode::BadMessage => 5,
            StatusCode::NoConnection => 6,
            StatusCode::ConnectionLost => 7,
            StatusCode::OpUnsupported => 8,
        }
    }
}

impl Serialize for StatusCode {
    open spec fn spec_ser(v: StatusCode) -> Seq<u8> {
        spec_ser_u32(spec_status_code_word(v))
    }

    open spec fn len_ok(v: StatusCode) -> bool {
        true
    }

    fn serialize(&self, out: &mut Vec<u8>) -> (r: Result<(), ProtocolError>) {
        write_u32(out, self.to_word());
        Ok(())
    }
}

impl Deserialize for StatusCode {
    open spec fn spec_parse(b: Seq<u8>) -> SpecParse<StatusCode> {
        match spec_parse_u32(b) {
            Ok((w, rest)) => {
                if w == 0 {
                    Ok((StatusCode::Okay, rest))
                } else if w == 1 {
                    Ok((StatusCode::Eof, rest))
                } else if w == 2 {
                    Ok((StatusCode::NoSuchFile, rest))
                } else if w == 3 {
                    Ok((StatusCode::PermissionDenied, rest))
                } else if w == 4 {
                    Ok((StatusCode::Failure, rest))
                } else if w == 5 {
                    Ok((StatusCode::BadMessage, rest))
                } else if w == 6 {
                    Ok((StatusCode::NoConnection, rest))
                } else if w == 7 {
                    Ok((StatusCode::ConnectionLost, rest))
                } else if w == 8 {
                    Ok((StatusCode::OpUnsupported, rest))
                } else {
                    Err(ProtocolError::UnknownCommand)
                }
            },
            Err(e) => Err(e),
        }
    }

    fn deserialize(r: &mut Reader<'_>) -> (res: Result<Self, ProtocolError>) {
        let w = match r.read_u32() {
            Ok(w) => w,
            Err(e) => {
                return Err(e);
            },
        };
        if w == 0 {
            Ok(StatusCode::Okay)
        } else if w == 1 {
            Ok(StatusCode::Eof)
        } else if w == 2 {
            Ok(StatusCode::NoSuchFile)
        } else if w == 3 {
            Ok(StatusCode::PermissionDenied)
        } else if w == 4 {
            Ok(StatusCode::Failure)
        } else if w == 5 {
            Ok(StatusCode::BadMessage)
        } else if w == 6 {
            Ok(StatusCode::NoConnection)
        } else if w == 7 {
            Ok(StatusCode::ConnectionLost)
        } else if w == 8 {
            Ok(StatusCode::OpUnsupported)
        } else {
            Err(ProtocolError::UnknownCommand)
        }
    }
}

/// Parsing inverts serializing for status codes.
pub proof fn lemma_rt_status_code(v: StatusCode, rest: Seq<u8>)
    ensures
        <StatusCode as Deserialize>::spec_parse(<StatusCode as Serialize>::spec_ser(v) + rest)
            == Ok::<_, ProtocolError>((v, rest)),
{
    lemma_parse_ser_u32(spec_status_code_word(v), rest);
}

// ----------------------------------------------------------------------
// Strings and blobs.

impl Serialize for String {
    open spec fn spec_ser(v: Seq<char>) -> Seq<u8> {
        spec_ser_string(v)
    }

    open spec fn len_ok(v: Seq<char>) -> bool {
        string_len_ok(v)
    }

    fn serialize(&self, out: &mut Vec<u8>) -> (r: Result<(), ProtocolError>) {
        write_string(out, self.as_str())
    }
}

impl Deserialize for String {
    open spec fn spec_parse(b: Seq<u8>) -> SpecParse<Seq<char>> {
        spec_parse_string(b)
    }

    fn deserialize(r: &mut Reader<'_>) -> (res: Result<Self, ProtocolError>) {
        r.read_string()
    }
}

impl Serialize for VecU8 {
    open spec fn spec_ser(v: Seq<u8>) -> Seq<u8> {
        spec_ser_bytes(v)
    }

    open spec fn len_ok(v: Seq<u8>) -> bool {
        bytes_len_ok(v)
    }

    fn serialize(&self, out: &mut Vec<u8>) -> (r: Result<(), ProtocolError>) {
        write_bytes(out, self.0.as_slice())
    }
}

impl Deserialize for VecU8 {
    open spec fn spec_parse(b: Seq<u8>) -> SpecParse<Seq<u8>> {
        spec_parse_bytes(b)
    }

    fn deserialize(r: &mut Reader<'_>) -> (res: Result<Self, ProtocolError>) {
        match r.read_bytes() {
            Ok(v) => Ok(VecU8(v)),
            Err(e) => Err(e),
        }
    }
}

// ----------------------------------------------------------------------
// Extended attributes, extensions, directory names.

impl Serialize for ExtendedAttr {
    open spec fn spec_ser(v: ExtendedAttrV) -> Seq<u8> {
        spec_ser_string(v.attr_type) + spec_ser_string(v.data)
    }

    open spec fn len_ok(v: ExtendedAttrV) -> bool {
        string_len_ok(v.attr_type) && string_len_ok(v.data)
    }

    fn serialize(&self, out: &mut Vec<u8>) -> (r: Result<(), ProtocolError>) {
        write_string(out, self.attr_type.as_str())?;
        write_string(out, self.data.as_str())?;
        proof {
            assert(out@ =~= old(out)@ + Self::spec_ser(self@));
        }
        Ok(())
    }
}

impl Deserialize for ExtendedAttr {
    open spec fn spec_parse(b: Seq<u8>) -> SpecParse<ExtendedAttrV> {
        match spec_parse_string(b) {
            Ok((attr_type, rest)) => match spec_parse_string(rest) {
                Ok((data, rest2)) => Ok((ExtendedAttrV { attr_type, data }, rest2)),
                Err(e) => Err(e),
            },
            Err(e) => Err(e),
        }
    }

    fn deserialize(r: &mut Reader<'_>) -> (res: Result<Self, ProtocolError>) {
        let attr_type = match r.read_string() {
            Ok(s) => s,
            Err(e) => {
                return Err(e);
            },
        };
        let data = match r.read_string() {
            Ok(s) => s,
            Err(e) => {
                return Err(e);
            },
        };
        Ok(ExtendedAttr { attr_type, data })
    }
}

/// Parsing inverts serializing for extended attributes.
pub proof fn lemma_rt_ext_attr(v: ExtendedAttrV, rest: Seq<u8>)
    requires
        <ExtendedAttr as Serialize>::len_ok(v),
    ensures
        <ExtendedAttr as Deserialize>::spec_parse(<ExtendedAttr as Serialize>::spec_ser(v) + rest)
            == Ok::<_, ProtocolError>((v, rest)),
{
    let a = spec_ser_string(v.attr_type);
    let b = spec_ser_string(v.data);
    assert((a + b) + rest =~= a + (b + rest));
    lemma_parse_ser_string(v.attr_type, b + rest);
    lemma_parse_ser_string(v.data, rest);
}

impl Serialize for Extension {
    open spec fn spec_ser(v: ExtensionV) -> Seq<u8> {
        spec_ser_string(v.name) + spec_ser_string(v.data)
    }

    open spec fn len_ok(v: ExtensionV) -> bool {
        string_len_ok(v.name) && string_len_ok(v.data)
    }

    fn serialize(&self, out: &mut Vec<u8>) -> (r: Result<(), ProtocolError>) {
        write_string(out, self.name.as_str())?;
        write_string(out, self.data.as_str())?;
        proof {
            assert(out@ =~= old(out)@ + Self::spec_ser(self@));
        }
        Ok(())
    }
}

impl Deserialize for Extension {
    open spec fn spec_parse(b: Seq<u8>) -> SpecParse<ExtensionV> {
        match spec_parse_string(b) {
            Ok((name, rest)) => match spec_parse_string(rest) {
                Ok((data, rest2)) => Ok((ExtensionV { name, data }, rest2)),
                Err(e) => Err(e),
            },
            Err(e) => Err(e),
        }
    }

    fn deserialize(r: &mut Reader<'_>) -> (res: Result<Self, ProtocolError>) {
        let name = match r.read_string() {
            Ok(s) => s,
            Err(e) => {
                return Err(e);
            },
        };
        let data = match r.read_string() {
            Ok(s) => s,
            Err(e) => {
                return Err(e);
            },
        };
        Ok(Extension { name, data })
    }
}

/// Parsing inverts serializing for extensions.
pub proof fn lemma_rt_extension(v: ExtensionV, rest: Seq<u8>)
    requires
        <Extension as Serialize>::len_ok(v),
    ensures
        <Extension as Deserialize>::spec_parse(<Extension as Serialize>::spec_ser(v) + rest)
            == Ok::<_, ProtocolError>((v, rest)),
{
    let a = spec_ser_string(v.name);
    let b = spec_ser_string(v.data);
    assert((a + b) + rest =~= a + (b + rest));
    lemma_parse_ser_string(v.name, b + rest);
    lemma_parse_ser_string(v.data, rest);
}

// ----------------------------------------------------------------------
// Attributes.

/// The presence flags implied by an attribute value: a field's bit is set
/// exactly when the field is present.
pub open spec fn spec_attrs_flags(v: AttrsV) -> Attrsflags {
    Attrsflags {
        size: v.size is Some,
        uidgid: v.uid_gid is Some,
        permissions: v.permissions is Some,
        acmodtime: v.atime_mtime is Some,
        extended: v.extended_attrs.len() > 0,
    }
}

/// The wire form of an optional 64-bit field: present or absent entirely.
pub open spec fn spec_ser_opt_u64(x: Option<u64>) -> Seq<u8> {
    match x {
        Some(v) => spec_ser_u64(v),
        None => Seq::empty(),
    }
}

/// The wire form of an optional 32-bit field.
pub open spec fn spec_ser_opt_u32(x: Option<u32>) -> Seq<u8> {
    match x {
        Some(v) => spec_ser_u32(v),
        None => Seq::empty(),
    }
}

/// The wire form of an optional pair of 32-bit fields.
pub open spec fn spec_ser_opt_pair(x: Option<(u32, u32)>) -> Seq<u8> {
    match x {
        Some((a, b)) => spec_ser_u32(a) + spec_ser_u32(b),
        None => Seq::empty(),
    }
}

/// The wire form of the extended-attribute list: a count and the entries
/// when the list is not empty, nothing at all when it is.
pub open spec fn spec_ser_ext_list(s: Seq<ExtendedAttrV>) -> Seq<u8> {
    if s.len() > 0 {
        spec_ser_u32(s.len() as u32) + spec_ser_elems::<ExtendedAttr>(s)
    } else {
        Seq::empty()
    }
}

/// Parses an optional 64-bit field, present exactly when its flag was set.
pub open spec fn spec_parse_opt_u64(b: Seq<u8>, present: bool) -> SpecParse<Option<u64>> {
    if present {
        match spec_parse_u64(b) {
            Ok((v, b)) => Ok((Some(v), b)),
            Err(e) => Err(e),
        }
    } else {
        Ok((None, b))
    }
}

/// Parses an optional 32-bit field.
pub open spec fn spec_parse_opt_u32(b: Seq<u8>, present: bool) -> SpecParse<Option<u32>> {
    if present {
        match spec_parse_u32(b) {
            Ok((v, b)) => Ok((Some(v), b)),
            Err(e) => Err(e),
        }
    } else {
        Ok((None, b))
    }
}

/// Parses an optional pair of 32-bit fields.
pub open spec fn spec_parse_opt_pair(b: Seq<u8>, present: bool) -> SpecParse<Option<(u32, u32)>> {
    if present {
        match spec_parse_u32(b) {
            Ok((x, b)) => match spec_parse_u32(b) {
                Ok((y, b)) => Ok((Some((x, y)), b)),
                Err(e) => Err(e),
            },
            Err(e) => Err(e),
        }
    } else {
        Ok((None, b))
    }
}

/// Parses the extended-attribute list, present exactly when its flag was
/// set.
pub open spec fn spec_parse_ext_list(b: Seq<u8>, present: bool) -> SpecParse<Seq<ExtendedAttrV>> {
    if present {
        match spec_parse_u32(b) {
            Ok((n, b)) => spec_parse_elems::<ExtendedAttr>(b, n as nat),
            Err(e) => Err(e),
        }
    } else {
        Ok((Seq::empty(), b))
    }
}

/// The wire form of the optional fields of an attribute value, without the
/// flags word.
pub open spec fn spec_ser_attr_fields(v: AttrsV) -> Seq<u8> {
    spec_ser_opt_u64(v.size) + spec_ser_opt_pair(v.uid_gid) + spec_ser_opt_u32(v.permissions)
        + spec_ser_opt_pair(v.atime_mtime) + spec_ser_ext_list(v.extended_attrs)
}

/// Parsing inverts serializing for an optional 64-bit field.
proof fn lemma_rt_opt_u64(x: Option<u64>, rest: Seq<u8>)
    ensures
        spec_parse_opt_u64(spec_ser_opt_u64(x) + rest, x is Some) == Ok::<_, ProtocolError>((
            x,
            rest,
        )),
{
    match x {
        Some(v) => lemma_parse_ser_u64(v, rest),
        None => {
            assert(spec_ser_opt_u64(x) + rest =~= rest);
        },
    }
}

/// Parsing inverts serializing for an optional 32-bit field.
proof fn lemma_rt_opt_u32(x: Option<u32>, rest: Seq<u8>)
    ensures
        spec_parse_opt_u32(spec_ser_opt_u32(x) + rest, x is Some) == Ok::<_, ProtocolError>((
            x,
            rest,
        )),
{
    match x {
        Some(v) => lemma_parse_ser_u32(v, rest),
        None => {
            assert(spec_ser_opt_u32(x) + rest =~= rest);
        },
    }
}

/// Parsing inverts serializing for an optional pair of 32-bit fields.
proof fn lemma_rt_opt_pair(x: Option<(u32, u32)>, rest: Seq<u8>)
    ensures
        spec_parse_opt_pair(spec_ser_opt_pair(x) + rest, x is Some) == Ok::<_, ProtocolError>((
            x,
            rest,
        )),
{
    match x {
        Some((a, b)) => {
            assert(spec_ser_opt_pair(x) + rest =~= spec_ser_u32(a) + (spec_ser_u32(b) + rest));
            lemma_parse_ser_u32(a, spec_ser_u32(b) + rest);
            lemma_parse_ser_u32(b, rest);
        },
        None => {
            assert(spec_ser_opt_pair(x) + rest =~= rest);
        },
    }
}

/// Parsing inverts serializing for the extended-attribute list.
proof fn lemma_rt_ext_list(s: Seq<ExtendedAttrV>, rest: Seq<u8>)
    requires
        s.len() <= MAX_WIRE_LEN,
        elems_len_ok::<ExtendedAttr>(s),
    ensures
        spec_parse_ext_list(spec_ser_ext_list(s) + rest, s.len() > 0) == Ok::<_, ProtocolError>((
            s,
            rest,
        )),
{
    if s.len() > 0 {
        let n = s.len() as u32;
        assert(spec_ser_ext_list(s) + rest =~= spec_ser_u32(n) + (spec_ser_elems::<ExtendedAttr>(s)
            + rest));
        lemma_parse_ser_u32(n, spec_ser_elems::<ExtendedAttr>(s) + rest);
        lemma_rt_elems_ext_attr(s, rest);
    } else {
        assert(spec_ser_ext_list(s) + rest =~= rest);
        assert(s =~= Seq::<ExtendedAttrV>::empty());
    }
}

/// Writes an optional 64-bit field: the value when present, nothing when
/// absent.
fn write_opt_u64(out: &mut Vec<u8>, x: Option<u64>)
    ensures
        final(out)@ == old(out)@ + spec_ser_opt_u64(x),
{
    if let Some(v) = x {
        write_u64(out, v);
    } else {
        proof {
            lemma_add_empty(out@);
        }
    }
}

/// Writes an optional 32-bit field.
fn write_opt_u32(out: &mut Vec<u8>, x: Option<u32>)
    ensures
        final(out)@ == old(out)@ + spec_ser_opt_u32(x),
{
    if let Some(v) = x {
        write_u32(out, v);
    } else {
        proof {
            lemma_add_empty(out@);
        }
    }
}

/// Writes an optional pair of 32-bit fields.
fn write_opt_pair(out: &mut Vec<u8>, x: Option<(u32, u32)>)
    ensures
        final(out)@ == old(out)@ + spec_ser_opt_pair(x),
{
    if let Some((a, b)) = x {
        write_u32(out, a);
        write_u32(out, b);
        proof {
            lemma_assoc(old(out)@, spec_ser_u32(a), spec_ser_u32(b));
        }
    } else {
        proof {
            lemma_add_empty(out@);
        }
    }
}

/// Writes the extended-attribute list: count and entries when not empty,
/// nothing when empty.
fn write_ext_list(out: &mut Vec<u8>, items: &Vec<ExtendedAttr>) -> (r: Result<(), ProtocolError>)
    ensures
        r is Ok ==> view_elems(*items).len() <= MAX_WIRE_LEN && elems_len_ok::<ExtendedAttr>(
            view_elems(*items),
        ) && final(out)@ == old(out)@ + spec_ser_ext_list(view_elems(*items)),
        r is Err ==> !(view_elems(*items).len() <= MAX_WIRE_LEN && elems_len_ok::<ExtendedAttr>(
            view_elems(*items),
        )) && r == Err::<(), ProtocolError>(ProtocolError::InvalidLength),
{
    if items.len() > 0 {
        if items.len() as u64 > MAX_WIRE_LEN {
            return Err(ProtocolError::InvalidLength);
        }
        let ghost out0 = out@;
        write_u32(out, items.len() as u32);
        serialize_elems(items, out)?;
        proof {
            lemma_assoc(
                out0,
                spec_ser_u32(items@.len() as u32),
                spec_ser_elems::<ExtendedAttr>(view_elems(*items)),
            );
        }
        Ok(())
    } else {
        proof {
            lemma_add_empty(out@);
        }
        Ok(())
    }
}

/// The wire form of an attribute value: the flags word, then the present
/// fields in their fixed order. Kept opaque so that packets mentioning
/// attributes stay small for the prover; revealed where the bytes matter.
#[verifier::opaque]
pub open spec fn spec_ser_attrs(v: AttrsV) -> Seq<u8> {
    spec_ser_u32(spec_attrsflags_word(spec_attrs_flags(v))) + spec_ser_attr_fields(v)
}

impl Serialize for Attrs {
    open spec fn spec_ser(v: AttrsV) -> Seq<u8> {
        spec_ser_attrs(v)
    }

    open spec fn len_ok(v: AttrsV) -> bool {
        v.extended_attrs.len() <= MAX_WIRE_LEN && elems_len_ok::<ExtendedAttr>(v.extended_attrs)
    }

    #[verifier::rlimit(100)]
    fn serialize(&self, out: &mut Vec<u8>) -> (r: Result<(), ProtocolError>) {
        let ghost v = self@;
        let ghost out0 = out@;
        let ghost w = spec_ser_u32(spec_attrsflags_word(spec_attrs_flags(v)));
        let ghost p1 = spec_ser_opt_u64(v.size);
        let ghost p2 = spec_ser_opt_pair(v.uid_gid);
        let ghost p3 = spec_ser_opt_u32(v.permissions);
        let ghost p4 = spec_ser_opt_pair(v.atime_mtime);
        let ghost p5 = spec_ser_ext_list(v.extended_attrs);
        let flags = Attrsflags {
            size: self.size.is_some(),
            uidgid: self.uid_gid.is_some(),
            permissions: self.permissions.is_some(),
            acmodtime: self.atime_mtime.is_some(),
            extended: self.extended_attrs.len() > 0,
        };
        write_u32(out, flags.to_word());
        write_opt_u64(out, self.size);
        write_opt_pair(out, self.uid_gid);
        write_opt_u32(out, self.permissions);
        write_opt_pair(out, self.atime_mtime);
        write_ext_list(out, &self.extended_attrs)?;
        proof {
            reveal(spec_ser_attrs);
            assert(out@ == out0 + w + p1 + p2 + p3 + p4 + p5);
            assert(out0 + w + p1 + p2 + p3 + p4 + p5 =~= out0 + (w + (p1 + p2 + p3 + p4 + p5)));
            assert(w + (p1 + p2 + p3 + p4 + p5) =~= Self::spec_ser(v));
        }
        Ok(())
    }
}

/// Parses an attribute value: the flags word, then each field its bit
/// announces. Opaque for the same reason as [`spec_ser_attrs`].
#[verifier::opaque]
pub open spec fn spec_parse_attrs(b: Seq<u8>) -> SpecParse<AttrsV> {
        match spec_parse_u32(b) {
            Ok((w, b)) => {
                let f = spec_attrsflags_of(w);
                match spec_parse_opt_u64(b, f.size) {
                    Ok((size, b)) => match spec_parse_opt_pair(b, f.uidgid) {
                        Ok((uid_gid, b)) => match spec_parse_opt_u32(b, f.permissions) {
                            Ok((permissions, b)) => match spec_parse_opt_pair(b, f.acmodtime) {
                                Ok((atime_mtime, b)) => match spec_parse_ext_list(b, f.extended) {
                                    Ok((extended_attrs, b)) => Ok((
                                        AttrsV {
                                            size,
                                            uid_gid,
                                            permissions,
                                            atime_mtime,
                                            extended_attrs,
                                        },
                                        b,
                                    )),
                                    Err(e) => Err(e),
                                },
                                Err(e) => Err(e),
                            },
                            Err(e) => Err(e),
                        },
                        Err(e) => Err(e),
                    },
                    Err(e) => Err(e),
                }
            },
            Err(e) => Err(e),
        }
}

impl Deserialize for Attrs {
    open spec fn spec_parse(b: Seq<u8>) -> SpecParse<AttrsV> {
        spec_parse_attrs(b)
    }

    #[verifier::rlimit(100)]
    fn deserialize(r: &mut Reader<'_>) -> (res: Result<Self, ProtocolError>) {
        proof {
            reveal(spec_parse_attrs);
        }
        let w = match r.read_u32() {
            Ok(w) => w,
            Err(e) => {
                return Err(e);
            },
        };
        let f = Attrsflags::from_word(w);
        let mut attrs = Attrs {
            size: None,
            uid_gid: None,
            permissions: None,
            atime_mtime: None,
            extended_attrs: Vec::new(),
        };
        proof {
            assert(view_elems(attrs.extended_attrs) =~= Seq::<ExtendedAttrV>::empty());
        }
        if f.size {
            match r.read_u64() {
                Ok(x) => {
                    attrs.size = Some(x);
                },
                Err(e) => {
                    return Err(e);
                },
            }
        }
        if f.uidgid {
            let u = match r.read_u32() {
                Ok(x) => x,
                Err(e) => {
                    return Err(e);
                },
            };
            let g = match r.read_u32() {
                Ok(x) => x,
                Err(e) => {
                    return Err(e);
                },
            };
            attrs.uid_gid = Some((u, g));
        }
        if f.permissions {
            match r.read_u32() {
                Ok(x) => {
                    attrs.permissions = Some(x);
                },
                Err(e) => {
                    return Err(e);
                },
            }
        }
        if f.acmodtime {
            let a = match r.read_u32() {
                Ok(x) => x,
                Err(e) => {
                    return Err(e);
                },
            };
            let m = match r.read_u32() {
                Ok(x) => x,
                Err(e) => {
                    return Err(e);
                },
            };
            attrs.atime_mtime = Some((a, m));
        }
        if f.extended {
            let n = match r.read_u32() {
                Ok(x) => x,
                Err(e) => {
                    return Err(e);
                },
            };
            match deserialize_elems::<ExtendedAttr>(r, n) {
                Ok(v) => {
                    attrs.extended_attrs = v;
                },
                Err(e) => {
                    return Err(e);
                },
            }
        }
        Ok(attrs)
    }
}

/// Parsing inverts serializing for a counted run of extended attributes.
#[verifier::rlimit(100)]
pub proof fn lemma_rt_elems_ext_attr(s: Seq<ExtendedAttrV>, rest: Seq<u8>)
    requires
        elems_len_ok::<ExtendedAttr>(s),
    ensures
        spec_parse_elems::<ExtendedAttr>(spec_ser_elems::<ExtendedAttr>(s) + rest, s.len())
            == Ok::<_, ProtocolError>((s, rest)),
    decreases s.len(),
{
    broadcast use vstd::seq_lib::group_seq_properties;

    if s.len() == 0 {
        assert(spec_ser_elems::<ExtendedAttr>(s) + rest =~= rest);
    } else {
        let tail = s.skip(1);
        let tail_ser = spec_ser_elems::<ExtendedAttr>(tail);
        assert(spec_ser_elems::<ExtendedAttr>(s) + rest =~= <ExtendedAttr as Serialize>::spec_ser(
            s[0],
        ) + (tail_ser + rest));
        lemma_rt_ext_attr(s[0], tail_ser + rest);
        lemma_rt_elems_ext_attr(tail, rest);
        assert(seq![s[0]] + tail =~= s);
    }
}

/// Parsing inverts serializing for attribute values.
#[verifier::rlimit(100)]
pub proof fn lemma_rt_attrs(v: AttrsV, rest: Seq<u8>)
    requires
        <Attrs as Serialize>::len_ok(v),
    ensures
        <Attrs as Deserialize>::spec_parse(<Attrs as Serialize>::spec_ser(v) + rest) == Ok::<
            _,
            ProtocolError,
        >((v, rest)),
{
    reveal(spec_ser_attrs);
    reveal(spec_parse_attrs);
    let f = spec_attrs_flags(v);
    let w = spec_attrsflags_word(f);
    lemma_attrsflags_word_round_trip(f);
    let p1 = spec_ser_opt_u64(v.size);
    let p2 = spec_ser_opt_pair(v.uid_gid);
    let p3 = spec_ser_opt_u32(v.permissions);
    let p4 = spec_ser_opt_pair(v.atime_mtime);
    let p5 = spec_ser_ext_list(v.extended_attrs);
    let r5 = rest;
    let r4 = p5 + r5;
    let r3 = p4 + r4;
    let r2 = p3 + r3;
    let r1 = p2 + r2;
    lemma_assoc(p1 + p2 + p3 + p4, p5, rest);
    lemma_assoc(p1 + p2 + p3, p4, r4);
    lemma_assoc(p1 + p2, p3, r3);
    lemma_assoc(p1, p2, r2);
    lemma_assoc(spec_ser_u32(w), p1 + p2 + p3 + p4 + p5, rest);
    assert(<Attrs as Serialize>::spec_ser(v) + rest == spec_ser_u32(w) + (p1 + r1));
    lemma_parse_ser_u32(w, p1 + r1);
    lemma_rt_opt_u64(v.size, r1);
    lemma_rt_opt_pair(v.uid_gid, r2);
    lemma_rt_opt_u32(v.permissions, r3);
    lemma_rt_opt_pair(v.atime_mtime, r4);
    lemma_rt_ext_list(v.extended_attrs, rest);
    let parsed = <Attrs as Deserialize>::spec_parse(<Attrs as Serialize>::spec_ser(v) + rest);
    assert(parsed is Ok);
    assert(parsed->Ok_0.0 =~= v);
    assert(parsed->Ok_0.1 == rest);
}

// ----------------------------------------------------------------------
// Directory names.

impl Serialize for Name {
    open spec fn spec_ser(v: NameV) -> Seq<u8> {
        spec_ser_string(v.filename) + spec_ser_string(v.longname) + <Attrs as Serialize>::spec_ser(
            v.attrs,
        )
    }

    open spec fn len_ok(v: NameV) -> bool {
        string_len_ok(v.filename) && string_len_ok(v.longname) && <Attrs as Serialize>::len_ok(
            v.attrs,
        )
    }

    fn serialize(&self, out: &mut Vec<u8>) -> (r: Result<(), ProtocolError>) {
        write_string(out, self.filename.as_str())?;
        write_string(out, self.longname.as_str())?;
        self.attrs.serialize(out)?;
        proof {
            assert(out@ =~= old(out)@ + Self::spec_ser(self@));
        }
        Ok(())
    }
}

impl Deserialize for Name {
    open spec fn spec_parse(b: Seq<u8>) -> SpecParse<NameV> {
        match spec_parse_string(b) {
            Ok((filename, b)) => match spec_parse_string(b) {
                Ok((longname, b)) => match <Attrs as Deserialize>::spec_parse(b) {
                    Ok((attrs, b)) => Ok((NameV { filename, longname, attrs }, b)),
                    Err(e) => Err(e),
                },
                Err(e) => Err(e),
            },
            Err(e) => Err(e),
        }
    }

    fn deserialize(r: &mut Reader<'_>) -> (res: Result<Self, ProtocolError>) {
        let filename = match r.read_string() {
            Ok(s) => s,
            Err(e) => {
                return Err(e);
            },
        };
        let longname = match r.read_string() {
            Ok(s) => s,
            Err(e) => {
                return Err(e);
            },
        };
        let attrs = match Attrs::deserialize(r) {
            Ok(a) => a,
            Err(e) => {
                return Err(e);
            },
        };
        Ok(Name { filename, longname, attrs })
    }
}

/// Parsing inverts serializing for directory-entry names.
#[verifier::rlimit(100)]
pub proof fn lemma_rt_name(v: NameV, rest: Seq<u8>)
    requires
        <Name as Serialize>::len_ok(v),
    ensures
        <Name as Deserialize>::spec_parse(<Name as Serialize>::spec_ser(v) + rest) == Ok::<
            _,
            ProtocolError,
        >((v, rest)),
{
    let a = spec_ser_string(v.filename);
    let b = spec_ser_string(v.longname);
    let c = <Attrs as Serialize>::spec_ser(v.attrs);
    lemma_assoc(a + b, c, rest);
    lemma_assoc(a, b, c + rest);
    assert((a + b + c) + rest == a + (b + (c + rest)));
    lemma_parse_ser_string(v.filename, b + (c + rest));
    lemma_parse_ser_string(v.longname, c + rest);
    lemma_rt_attrs(v.attrs, rest);
}

/// Parsing inverts serializing for a counted run of directory names.
#[verifier::rlimit(100)]
pub proof fn lemma_rt_elems_name(s: Seq<NameV>, rest: Seq<u8>)
    requires
        elems_len_ok::<Name>(s),
    ensures
        spec_parse_elems::<Name>(spec_ser_elems::<Name>(s) + rest, s.len()) == Ok::<
            _,
            ProtocolError,
        >((s, rest)),
    decreases s.len(),
{
    if s.len() == 0 {
        assert(spec_ser_elems::<Name>(s) + rest =~= rest);
        assert(s =~= Seq::<NameV>::empty());
    } else {
        let tail = s.skip(1);
        let tail_ser = spec_ser_elems::<Name>(tail);
        let head_ser = <Name as Serialize>::spec_ser(s[0]);
        let whole = spec_ser_elems::<Name>(s) + rest;
        lemma_assoc(head_ser, tail_ser, rest);
        assert(spec_ser_elems::<Name>(s) == head_ser + tail_ser);
        assert(whole == head_ser + (tail_ser + rest));
        lemma_rt_name(s[0], tail_ser + rest);
        assert(<Name as Deserialize>::spec_parse(whole) == Ok::<_, ProtocolError>((
            s[0],
            tail_ser + rest,
        )));
        assert(elems_len_ok::<Name>(tail)) by {
            assert(forall|i: int|
                0 <= i < tail.len() ==> #[trigger] tail[i] == s[i + 1] && <Name as Serialize>::len_ok(
                    s[i + 1],
                ));
        }
        lemma_rt_elems_name(tail, rest);
        assert(spec_parse_elems::<Name>(tail_ser + rest, tail.len()) == Ok::<_, ProtocolError>((
            tail,
            rest,
        )));
        assert(tail.len() == (s.len() - 1) as nat);
        assert(seq![s[0]] + tail =~= s);
        assert(spec_parse_elems::<Name>(whole, s.len()) == Ok::<_, ProtocolError>((
            seq![s[0]] + tail,
            rest,
        )));
    }
}

// ----------------------------------------------------------------------
// Extended requests.

/// The name string carrying each extended-request discriminator.
pub open spec fn spec_ext_name(t: ExtendedRequestType) -> Seq<char> {
    match t {
        ExtendedRequestType::OpensshStatvfs => "statvfs@openssh.com"@,
        ExtendedRequestType::OpensshPosixRename => "posix-rename@openssh.com"@,
        ExtendedRequestType::OpensshHardlink => "hardlink@openssh.com"@,
        ExtendedRequestType::OpensshFsync => "fsync@openssh.com"@,
    }
}

/// The four extension names fit the wire, and no two are the same string.
pub proof fn lemma_ext_names()
    ensures
        forall|t: ExtendedRequestType| string_len_ok(#[trigger] spec_ext_name(t)),
        forall|t1: ExtendedRequestType, t2: ExtendedRequestType|
            spec_ext_name(t1) == spec_ext_name(t2) ==> t1 == t2,
{
    reveal_strlit("statvfs@openssh.com");
    reveal_strlit("posix-rename@openssh.com");
    reveal_strlit("hardlink@openssh.com");
    reveal_strlit("fsync@openssh.com");
    assert forall|t: ExtendedRequestType| string_len_ok(#[trigger] spec_ext_name(t)) by {
        lemma_encode_utf8_len(spec_ext_name(t));
    }
    assert("statvfs@openssh.com"@.len() == 19);
    assert("posix-rename@openssh.com"@.len() == 24);
    assert("hardlink@openssh.com"@.len() == 20);
    assert("fsync@openssh.com"@.len() == 17);
}

impl Serialize for ExtendedRequestType {
    open spec fn spec_ser(v: ExtendedRequestType) -> Seq<u8> {
        spec_ser_string(spec_ext_name(v))
    }

    open spec fn len_ok(v: ExtendedRequestType) -> bool {
        true
    }

    fn serialize(&self, out: &mut Vec<u8>) -> (r: Result<(), ProtocolError>) {
        let name: &str = match self {
            ExtendedRequestType::OpensshStatvfs => "statvfs@openssh.com",
            ExtendedRequestType::OpensshPosixRename => "posix-rename@openssh.com",
            ExtendedRequestType::OpensshHardlink => "hardlink@openssh.com",
            ExtendedRequestType::OpensshFsync => "fsync@openssh.com",
        };
        proof {
            lemma_ext_names();
            assert(name@ == spec_ext_name(*self));
            assert(string_len_ok(name@));
        }
        match write_string(out, name) {
            Ok(()) => Ok(()),
            Err(e) => {
                assert(false);
                Err(e)
            },
        }
    }
}

/// Compares a string against a literal.
fn string_eq_str(s: &String, t: &str) -> (r: bool)
    ensures
        r == (s@ == t@),
{
    let u: String = t.to_owned();
    *s == u
}

impl Deserialize for ExtendedRequestType {
    open spec fn spec_parse(b: Seq<u8>) -> SpecParse<ExtendedRequestType> {
        match spec_parse_string(b) {
            Ok((s, rest)) => {
                if s == spec_ext_name(ExtendedRequestType::OpensshStatvfs) {
                    Ok((ExtendedRequestType::OpensshStatvfs, rest))
                } else if s == spec_ext_name(ExtendedRequestType::OpensshPosixRename) {
                    Ok((ExtendedRequestType::OpensshPosixRename, rest))
                } else if s == spec_ext_name(ExtendedRequestType::OpensshHardlink) {
                    Ok((ExtendedRequestType::OpensshHardlink, rest))
                } else if s == spec_ext_name(ExtendedRequestType::OpensshFsync) {
                    Ok((ExtendedRequestType::OpensshFsync, rest))
                } else {
                    Err(ProtocolError::UnknownExtension)
                }
            },
            Err(e) => Err(e),
        }
    }

    fn deserialize(r: &mut Reader<'_>) -> (res: Result<Self, ProtocolError>) {
        let s = match r.read_string() {
            Ok(s) => s,
            Err(e) => {
                return Err(e);
            },
        };
        if string_eq_str(&s, "statvfs@openssh.com") {
            Ok(ExtendedRequestType::OpensshStatvfs)
        } else if string_eq_str(&s, "posix-rename@openssh.com") {
            Ok(ExtendedRequestType::OpensshPosixRename)
        } else if string_eq_str(&s, "hardlink@openssh.com") {
            Ok(ExtendedRequestType::OpensshHardlink)
        } else if string_eq_str(&s, "fsync@openssh.com") {
            Ok(ExtendedRequestType::OpensshFsync)
        } else {
            Err(ProtocolError::UnknownExtension)
        }
    }
}

/// Parsing inverts serializing for extended-request discriminators.
pub proof fn lemma_rt_ext_req_type(v: ExtendedRequestType, rest: Seq<u8>)
    ensures
        <ExtendedRequestType as Deserialize>::spec_parse(
            <ExtendedRequestType as Serialize>::spec_ser(v) + rest,
        ) == Ok::<_, ProtocolError>((v, rest)),
{
    lemma_ext_names();
    lemma_parse_ser_string(spec_ext_name(v), rest);
}

impl Serialize for ExtendedRequest {
    open spec fn spec_ser(v: ExtendedRequestV) -> Seq<u8> {
        match v {
            ExtendedRequestV::OpensshStatvfs { path } => <ExtendedRequestType as Serialize>::spec_ser(
                ExtendedRequestType::OpensshStatvfs,
            ) + spec_ser_string(path),
            ExtendedRequestV::OpensshPosixRename { oldpath, newpath } => <ExtendedRequestType as Serialize>::spec_ser(
                ExtendedRequestType::OpensshPosixRename,
            ) + spec_ser_string(oldpath) + spec_ser_string(newpath),
            ExtendedRequestV::OpensshHardlink { oldpath, newpath } => <ExtendedRequestType as Serialize>::spec_ser(
                ExtendedRequestType::OpensshHardlink,
            ) + spec_ser_string(oldpath) + spec_ser_string(newpath),
            ExtendedRequestV::OpensshFsync { handle } => <ExtendedRequestType as Serialize>::spec_ser(
                ExtendedRequestType::OpensshFsync,
            ) + spec_ser_string(handle),
        }
    }

    open spec fn len_ok(v: ExtendedRequestV) -> bool {
        match v {
            ExtendedRequestV::OpensshStatvfs { path } => string_len_ok(path),
            ExtendedRequestV::OpensshPosixRename { oldpath, newpath } => string_len_ok(oldpath)
                && string_len_ok(newpath),
            ExtendedRequestV::OpensshHardlink { oldpath, newpath } => string_len_ok(oldpath)
                && string_len_ok(newpath),
            ExtendedRequestV::OpensshFsync { handle } => string_len_ok(handle),
        }
    }

    fn serialize(&self, out: &mut Vec<u8>) -> (r: Result<(), ProtocolError>) {
        match self {
            ExtendedRequest::OpensshStatvfs { path } => {
                ExtendedRequestType::OpensshStatvfs.serialize(out)?;
                write_string(out, path.as_str())?;
            },
            ExtendedRequest::OpensshPosixRename { oldpath, newpath } => {
                ExtendedRequestType::OpensshPosixRename.serialize(out)?;
                write_string(out, oldpath.as_str())?;
                write_string(out, newpath.as_str())?;
            },
            ExtendedRequest::OpensshHardlink { oldpath, newpath } => {
                ExtendedRequestType::OpensshHardlink.serialize(out)?;
                write_string(out, oldpath.as_str())?;
                write_string(out, newpath.as_str())?;
            },
            ExtendedRequest::OpensshFsync { handle } => {
                ExtendedRequestType::OpensshFsync.serialize(out)?;
                write_string(out, handle.as_str())?;
            },
        }
        proof {
            assert(out@ =~= old(out)@ + Self::spec_ser(self@));
        }
        Ok(())
    }
}

impl Deserialize for ExtendedRequest {
    open spec fn spec_parse(b: Seq<u8>) -> SpecParse<ExtendedRequestV> {
        match <ExtendedRequestType as Deserialize>::spec_parse(b) {
            Ok((t, b)) => match t {
                ExtendedRequestType::OpensshStatvfs => match spec_parse_string(b) {
                    Ok((path, b)) => Ok((ExtendedRequestV::OpensshStatvfs { path }, b)),
                    Err(e) => Err(e),
                },
                ExtendedRequestType::OpensshPosixRename => match spec_parse_string(b) {
                    Ok((oldpath, b)) => match spec_parse_string(b) {
                        Ok((newpath, b)) => Ok(
                            (ExtendedRequestV::OpensshPosixRename { oldpath, newpath }, b),
                        ),
                        Err(e) => Err(e),
                    },
                    Err(e) => Err(e),
                },
                ExtendedRequestType::OpensshHardlink => match spec_parse_string(b) {
                    Ok((oldpath, b)) => match spec_parse_string(b) {
                        Ok((newpath, b)) => Ok(
                            (ExtendedRequestV::OpensshHardlink { oldpath, newpath }, b),
                        ),
                        Err(e) => Err(e),
                    },
                    Err(e) => Err(e),
                },
                ExtendedRequestType::OpensshFsync => match spec_parse_string(b) {
                    Ok((handle, b)) => Ok((ExtendedRequestV::OpensshFsync { handle }, b)),
                    Err(e) => Err(e),
                },
            },
            Err(e) => Err(e),
        }
    }

    fn deserialize(r: &mut Reader<'_>) -> (res: Result<Self, ProtocolError>) {
        let t = match ExtendedRequestType::deserialize(r) {
            Ok(t) => t,
            Err(e) => {
                return Err(e);
            },
        };
        match t {
            ExtendedRequestType::OpensshStatvfs => {
                let path = match r.read_string() {
                    Ok(s) => s,
                    Err(e) => {
                        return Err(e);
                    },
                };
                Ok(ExtendedRequest::OpensshStatvfs { path })
            },
            ExtendedRequestType::OpensshPosixRename => {
                let oldpath = match r.read_string() {
                    Ok(s) => s,
                    Err(e) => {
                        return Err(e);
                    },
                };
                let newpath = match r.read_string() {
                    Ok(s) => s,
                    Err(e) => {
                        return Err(e);
                    },
                };
                Ok(ExtendedRequest::OpensshPosixRename { oldpath, newpath })
            },
            ExtendedRequestType::OpensshHardlink => {
                let oldpath = match r.read_string() {
                    Ok(s) => s,
                    Err(e) => {
                        return Err(e);
                    },
                };
                let newpath = match r.read_string() {
                    Ok(s) => s,
                    Err(e) => {
                        return Err(e);
                    },
                };
                Ok(ExtendedRequest::OpensshHardlink { oldpath, newpath })
            },
            ExtendedRequestType::OpensshFsync => {
                let handle = match r.read_string() {
                    Ok(s) => s,
                    Err(e) => {
                        return Err(e);
                    },
                };
                Ok(ExtendedRequest::OpensshFsync { handle })
            },
        }
    }
}

/// Parsing inverts serializing for extended requests.
#[verifier::rlimit(100)]
pub proof fn lemma_rt_ext_req(v: ExtendedRequestV, rest: Seq<u8>)
    requires
        <ExtendedRequest as Serialize>::len_ok(v),
    ensures
        <ExtendedRequest as Deserialize>::spec_parse(<ExtendedRequest as Serialize>::spec_ser(v)
            + rest) == Ok::<_, ProtocolError>((v, rest)),
{
    match v {
        ExtendedRequestV::OpensshStatvfs { path } => {
            let t = <ExtendedRequestType as Serialize>::spec_ser(
                ExtendedRequestType::OpensshStatvfs,
            );
            let a = spec_ser_string(path);
            lemma_assoc(t, a, rest);
            lemma_rt_ext_req_type(ExtendedRequestType::OpensshStatvfs, a + rest);
            lemma_parse_ser_string(path, rest);
        },
        ExtendedRequestV::OpensshPosixRename { oldpath, newpath } => {
            let t = <ExtendedRequestType as Serialize>::spec_ser(
                ExtendedRequestType::OpensshPosixRename,
            );
            let a = spec_ser_string(oldpath);
            let b = spec_ser_string(newpath);
            lemma_assoc(t + a, b, rest);
            lemma_assoc(t, a, b + rest);
            assert((t + a + b) + rest == t + (a + (b + rest)));
            lemma_rt_ext_req_type(ExtendedRequestType::OpensshPosixRename, a + (b + rest));
            lemma_parse_ser_string(oldpath, b + rest);
            lemma_parse_ser_string(newpath, rest);
        },
        ExtendedRequestV::OpensshHardlink { oldpath, newpath } => {
            let t = <ExtendedRequestType as Serialize>::spec_ser(
                ExtendedRequestType::OpensshHardlink,
            );
            let a = spec_ser_string(oldpath);
            let b = spec_ser_string(newpath);
            lemma_assoc(t + a, b, rest);
            lemma_assoc(t, a, b + rest);
            assert((t + a + b) + rest == t + (a + (b + rest)));
            lemma_rt_ext_req_type(ExtendedRequestType::OpensshHardlink, a + (b + rest));
            lemma_parse_ser_string(oldpath, b + rest);
            lemma_parse_ser_string(newpath, rest);
        },
        ExtendedRequestV::OpensshFsync { handle } => {
            let t = <ExtendedRequestType as Serialize>::spec_ser(ExtendedRequestType::OpensshFsync);
            let a = spec_ser_string(handle);
            lemma_assoc(t, a, rest);
            lemma_rt_ext_req_type(ExtendedRequestType::OpensshFsync, a + rest);
            lemma_parse_ser_string(handle, rest);
        },
    }
}

// ----------------------------------------------------------------------
// Filesystem statistics.

impl Serialize for FsStats {
    open spec fn spec_ser(v: FsStats) -> Seq<u8> {
        spec_ser_u64(v.f_bsize) + spec_ser_u64(v.f_frsize) + spec_ser_u64(v.f_blocks)
            + spec_ser_u64(v.f_bfree) + spec_ser_u64(v.f_bavail) + spec_ser_u64(v.f_files)
            + spec_ser_u64(v.f_ffree) + spec_ser_u64(v.f_favail) + spec_ser_u64(v.f_fsid)
            + spec_ser_u64(v.f_flag) + spec_ser_u64(v.f_namemax)
    }

    open spec fn len_ok(v: FsStats) -> bool {
        true
    }

    fn serialize(&self, out: &mut Vec<u8>) -> (r: Result<(), ProtocolError>) {
        write_u64(out, self.f_bsize);
        write_u64(out, self.f_frsize);
        write_u64(out, self.f_blocks);
        write_u64(out, self.f_bfree);
        write_u64(out, self.f_bavail);
        write_u64(out, self.f_files);
        write_u64(out, self.f_ffree);
        write_u64(out, self.f_favail);
        write_u64(out, self.f_fsid);
        write_u64(out, self.f_flag);
        write_u64(out, self.f_namemax);
        proof {
            assert(out@ =~= old(out)@ + Self::spec_ser(self@));
        }
        Ok(())
    }
}

impl Deserialize for FsStats {
    open spec fn spec_parse(b: Seq<u8>) -> SpecParse<FsStats> {
        match spec_parse_u64(b) {
            Ok((f_bsize, b)) => match spec_parse_u64(b) {
                Ok((f_frsize, b)) => match spec_parse_u64(b) {
                    Ok((f_blocks, b)) => match spec_parse_u64(b) {
                        Ok((f_bfree, b)) => match spec_parse_u64(b) {
                            Ok((f_bavail, b)) => match spec_parse_u64(b) {
                                Ok((f_files, b)) => match spec_parse_u64(b) {
                                    Ok((f_ffree, b)) => match spec_parse_u64(b) {
                                        Ok((f_favail, b)) => match spec_parse_u64(b) {
                                            Ok((f_fsid, b)) => match spec_parse_u64(b) {
                                                Ok((f_flag, b)) => match spec_parse_u64(b) {
                                                    Ok((f_namemax, b)) => Ok((
                                                        FsStats {
                                                            f_bsize,
                                                            f_frsize,
                                                            f_blocks,
                                                            f_bfree,
                                                            f_bavail,
                                                            f_files,
                                                            f_ffree,
                                                            f_favail,
                                                            f_fsid,
                                                            f_flag,
                                                            f_namemax,
                                                        },
                                                        b,
                                                    )),
                                                    Err(e) => Err(e),
                                                },
                                                Err(e) => Err(e),
                                            },
                                            Err(e) => Err(e),
                                        },
                                        Err(e) => Err(e),
                                    },
                                    Err(e) => Err(e),
                                },
                                Err(e) => Err(e),
                            },
                            Err(e) => Err(e),
                        },
                        Err(e) => Err(e),
                    },
                    Err(e) => Err(e),
                },
                Err(e) => Err(e),
            },
            Err(e) => Err(e),
        }
    }

    #[verifier::rlimit(100)]
    fn deserialize(r: &mut Reader<'_>) -> (res: Result<Self, ProtocolError>) {
        let f_bsize = match r.read_u64() {
            Ok(x) => x,
            Err(e) => {
                return Err(e);
            },
        };
        let f_frsize = match r.read_u64() {
            Ok(x) => x,
            Err(e) => {
                return Err(e);
            },
        };
        let f_blocks = match r.read_u64() {
            Ok(x) => x,
            Err(e) => {
                return Err(e);
            },
        };
        let f_bfree = match r.read_u64() {
            Ok(x) => x,
            Err(e) => {
                return Err(e);
            },
        };
        let f_bavail = match r.read_u64() {
            Ok(x) => x,
            Err(e) => {
                return Err(e);
            },
        };
        let f_files = match r.read_u64() {
            Ok(x) => x,
            Err(e) => {
                return Err(e);
            },
        };
        let f_ffree = match r.read_u64() {
            Ok(x) => x,
            Err(e) => {
                return Err(e);
            },
        };
        let f_favail = match r.read_u64() {
            Ok(x) => x,
            Err(e) => {
                return Err(e);
            },
        };
        let f_fsid = match r.read_u64() {
            Ok(x) => x,
            Err(e) => {
                return Err(e);
            },
        };
        let f_flag = match r.read_u64() {
            Ok(x) => x,
            Err(e) => {
                return Err(e);
            },
        };
        let f_namemax = match r.read_u64() {
            Ok(x) => x,
            Err(e) => {
                return Err(e);
            },
        };
        Ok(
            FsStats {
                f_bsize,
                f_frsize,
                f_blocks,
                f_bfree,
                f_bavail,
                f_files,
                f_ffree,
                f_favail,
                f_fsid,
                f_flag,
                f_namemax,
            },
        )
    }
}

/// Parsing inverts serializing for filesystem statistics.
#[verifier::rlimit(100)]
pub proof fn lemma_rt_fsstats(v: FsStats, rest: Seq<u8>)
    ensures
        <FsStats as Deserialize>::spec_parse(<FsStats as Serialize>::spec_ser(v) + rest) == Ok::<
            _,
            ProtocolError,
        >((v, rest)),
{
    let s1 = spec_ser_u64(v.f_bsize);
    let s2 = spec_ser_u64(v.f_frsize);
    let s3 = spec_ser_u64(v.f_blocks);
    let s4 = spec_ser_u64(v.f_bfree);
    let s5 = spec_ser_u64(v.f_bavail);
    let s6 = spec_ser_u64(v.f_files);
    let s7 = spec_ser_u64(v.f_ffree);
    let s8 = spec_ser_u64(v.f_favail);
    let s9 = spec_ser_u64(v.f_fsid);
    let s10 = spec_ser_u64(v.f_flag);
    let s11 = spec_ser_u64(v.f_namemax);
    let r11 = rest;
    let r10 = s11 + r11;
    let r9 = s10 + r10;
    let r8 = s9 + r9;
    let r7 = s8 + r8;
    let r6 = s7 + r7;
    let r5 = s6 + r6;
    let r4 = s5 + r5;
    let r3 = s4 + r4;
    let r2 = s3 + r3;
    let r1 = s2 + r2;
    assert(<FsStats as Serialize>::spec_ser(v) + rest =~= s1 + r1);
    lemma_parse_ser_u64(v.f_bsize, r1);
    lemma_parse_ser_u64(v.f_frsize, r2);
    lemma_parse_ser_u64(v.f_blocks, r3);
    lemma_parse_ser_u64(v.f_bfree, r4);
    lemma_parse_ser_u64(v.f_bavail, r5);
    lemma_parse_ser_u64(v.f_files, r6);
    lemma_parse_ser_u64(v.f_ffree, r7);
    lemma_parse_ser_u64(v.f_favail, r8);
    lemma_parse_ser_u64(v.f_fsid, r9);
    lemma_parse_ser_u64(v.f_flag, r10);
    lemma_parse_ser_u64(v.f_namemax, r11);
}

// ----------------------------------------------------------------------
// Lists with no count on the wire.

impl<T: Serialize> Serialize for VecEos<T> {
    open spec fn spec_ser(v: Seq<T::V>) -> Seq<u8> {
        spec_ser_elems::<T>(v)
    }

    open spec fn len_ok(v: Seq<T::V>) -> bool {
        elems_len_ok::<T>(v)
    }

    fn serialize(&self, out: &mut Vec<u8>) -> (r: Result<(), ProtocolError>) {
        serialize_elems(&self.0, out)
    }
}

impl<T: Deserialize> Deserialize for VecEos<T> {
    open spec fn spec_parse(b: Seq<u8>) -> SpecParse<Seq<T::V>> {
        match spec_parse_eos::<T>(b) {
            Ok(s) => Ok((s, Seq::empty())),
            Err(e) => Err(e),
        }
    }

    fn deserialize(r: &mut Reader<'_>) -> (res: Result<Self, ProtocolError>) {
        match deserialize_eos::<T>(r) {
            Ok(v) => Ok(VecEos(v)),
            Err(e) => Err(e),
        }
    }
}

/// Parsing inverts serializing for the count-free extension list: written to
/// the end of a frame and read back to the end of it.
#[verifier::rlimit(100)]
pub proof fn lemma_rt_eos_extensions(s: Seq<ExtensionV>)
    requires
        elems_len_ok::<Extension>(s),
    ensures
        spec_parse_eos::<Extension>(spec_ser_elems::<Extension>(s)) == Ok::<_, ProtocolError>(s),
    decreases s.len(),
{
    broadcast use vstd::seq_lib::group_seq_properties;

    if s.len() == 0 {
        assert(spec_ser_elems::<Extension>(s) =~= Seq::<u8>::empty());
    } else {
        let tail = s.skip(1);
        let tail_ser = spec_ser_elems::<Extension>(tail);
        let whole = spec_ser_elems::<Extension>(s);
        assert(whole =~= <Extension as Serialize>::spec_ser(s[0]) + tail_ser);
        assert(<Extension as Serialize>::spec_ser(s[0]) + tail_ser =~= (
        <Extension as Serialize>::spec_ser(s[0]) + tail_ser) + Seq::<u8>::empty());
        lemma_rt_extension(s[0], tail_ser);
        // An extension starts with a length-prefixed string, so its wire
        // form is at least four bytes long and the parse makes progress.
        assert(<Extension as Serialize>::spec_ser(s[0]).len() >= 4);
        lemma_rt_eos_extensions(tail);
        assert(seq![s[0]] + tail =~= s);
    }
}

} // verus!
