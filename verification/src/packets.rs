//! The packet codec: a frame is a 32-bit length, an opcode byte and the
//! packet's fields; every request and response variant maps to its fixed
//! opcode from the protocol's table.
//!
//! `from_bytes` and `to_bytes` work on whole frames. The round-trip laws,
//! [`lemma_client_round_trip`] and [`lemma_server_round_trip`], state that
//! decoding a frame built by encoding gives back the original packet.

use vstd::prelude::*;
use crate::types::{
    Attrs, AttrsV, ClientPacketV, Extension, ExtendedRequest, Name, Pflags, ProtocolError,
    ServerPacketV, SftpClientPacket, SftpServerPacket, StatusCode, VecEos, VecU8,
};
use crate::codec::{
    Deserialize, Serialize, deserialize_elems, elems_len_ok, lemma_add_empty, lemma_assoc,
    lemma_rt_attrs, lemma_rt_elems_name, lemma_rt_eos_extensions, lemma_rt_ext_req,
    lemma_rt_pflags, lemma_rt_status_code, serialize_elems, spec_parse_elems, spec_ser_elems,
};
use crate::wire::{
    MAX_WIRE_LEN, Reader, SpecParse, bytes_len_ok, lemma_parse_ser_bytes, lemma_parse_ser_string,
    lemma_parse_ser_u32, lemma_parse_ser_u64, lemma_parse_ser_u8, spec_parse_bytes,
    spec_parse_string, spec_parse_u32, spec_parse_u64, spec_parse_u8, spec_ser_bytes,
    spec_ser_string, spec_ser_u32, spec_ser_u64, spec_ser_u8, string_len_ok, write_bytes,
    write_string, write_u32, write_u64, write_u8,
};

verus! {

// ----------------------------------------------------------------------
// Field-shape helpers shared by several packet variants.

/// Writes an opcode, a request id and one string field.
fn write_id_str(out: &mut Vec<u8>, op: u8, id: u32, s: &String) -> (r: Result<(), ProtocolError>)
    ensures
        r is Ok ==> string_len_ok(s@) && final(out)@ == old(out)@ + (spec_ser_u8(op) + spec_ser_u32(
            id,
        ) + spec_ser_string(s@)),
        r is Err ==> !string_len_ok(s@) && r == Err::<(), ProtocolError>(
            ProtocolError::InvalidLength,
        ),
{
    write_u8(out, op);
    write_u32(out, id);
    write_string(out, s.as_str())
}

/// Writes an opcode, a request id and two string fields.
fn write_id_str2(out: &mut Vec<u8>, op: u8, id: u32, a: &String, b: &String) -> (r: Result<
    (),
    ProtocolError,
>)
    ensures
        r is Ok ==> string_len_ok(a@) && string_len_ok(b@) && final(out)@ == old(out)@ + (
        spec_ser_u8(op) + spec_ser_u32(id) + spec_ser_string(a@) + spec_ser_string(b@)),
        r is Err ==> !(string_len_ok(a@) && string_len_ok(b@)) && r == Err::<(), ProtocolError>(
            ProtocolError::InvalidLength,
        ),
{
    write_u8(out, op);
    write_u32(out, id);
    write_string(out, a.as_str())?;
    write_string(out, b.as_str())
}

/// Writes an opcode, a request id, one string field and an attribute value.
fn write_id_str_attrs(out: &mut Vec<u8>, op: u8, id: u32, s: &String, attrs: &Attrs) -> (r: Result<
    (),
    ProtocolError,
>)
    ensures
        r is Ok ==> string_len_ok(s@) && <Attrs as Serialize>::len_ok(attrs@) && final(out)@ == old(
            out,
        )@ + (spec_ser_u8(op) + spec_ser_u32(id) + spec_ser_string(s@)
            + <Attrs as Serialize>::spec_ser(attrs@)),
        r is Err ==> !(string_len_ok(s@) && <Attrs as Serialize>::len_ok(attrs@)) && r == Err::<
            (),
            ProtocolError,
        >(ProtocolError::InvalidLength),
{
    write_u8(out, op);
    write_u32(out, id);
    write_string(out, s.as_str())?;
    attrs.serialize(out)
}

/// Reads a request id and one string field.
fn read_id_str(r: &mut Reader<'_>) -> (res: Result<(u32, String), ProtocolError>)
    requires
        old(r).wf(),
    ensures
        final(r).wf(),
        match res {
            Ok((id, s)) => spec_parse_id_str(old(r).remaining()) == Ok::<_, ProtocolError>((
                (id, s@),
                final(r).remaining(),
            )),
            Err(e) => spec_parse_id_str(old(r).remaining()) == Err::<
                ((u32, Seq<char>), Seq<u8>),
                _,
            >(e),
        },
{
    let id = match r.read_u32() {
        Ok(v) => v,
        Err(e) => {
            return Err(e);
        },
    };
    let s = match r.read_string() {
        Ok(v) => v,
        Err(e) => {
            return Err(e);
        },
    };
    Ok((id, s))
}

/// Parses a request id and one string field.
pub open spec fn spec_parse_id_str(b: Seq<u8>) -> SpecParse<(u32, Seq<char>)> {
    match spec_parse_u32(b) {
        Ok((id, b)) => match spec_parse_string(b) {
            Ok((s, b)) => Ok(((id, s), b)),
            Err(e) => Err(e),
        },
        Err(e) => Err(e),
    }
}

/// Reads a request id and two string fields.
fn read_id_str2(r: &mut Reader<'_>) -> (res: Result<(u32, String, String), ProtocolError>)
    requires
        old(r).wf(),
    ensures
        final(r).wf(),
        match res {
            Ok((id, a, b)) => spec_parse_id_str2(old(r).remaining()) == Ok::<_, ProtocolError>((
                (id, a@, b@),
                final(r).remaining(),
            )),
            Err(e) => spec_parse_id_str2(old(r).remaining()) == Err::<
                ((u32, Seq<char>, Seq<char>), Seq<u8>),
                _,
            >(e),
        },
{
    let id = match r.read_u32() {
        Ok(v) => v,
        Err(e) => {
            return Err(e);
        },
    };
    let a = match r.read_string() {
        Ok(v) => v,
        Err(e) => {
            return Err(e);
        },
    };
    let b = match r.read_string() {
        Ok(v) => v,
        Err(e) => {
            return Err(e);
        },
    };
    Ok((id, a, b))
}

/// Parses a request id and two string fields.
pub open spec fn spec_parse_id_str2(b: Seq<u8>) -> SpecParse<(u32, Seq<char>, Seq<char>)> {
    match spec_parse_u32(b) {
        Ok((id, b)) => match spec_parse_string(b) {
            Ok((x, b)) => match spec_parse_string(b) {
                Ok((y, b)) => Ok(((id, x, y), b)),
                Err(e) => Err(e),
            },
            Err(e) => Err(e),
        },
        Err(e) => Err(e),
    }
}

/// Reads a request id, one string field and an attribute value.
fn read_id_str_attrs(r: &mut Reader<'_>) -> (res: Result<(u32, String, Attrs), ProtocolError>)
    requires
        old(r).wf(),
    ensures
        final(r).wf(),
        match res {
            Ok((id, s, a)) => spec_parse_id_str_attrs(old(r).remaining()) == Ok::<
                _,
                ProtocolError,
            >(((id, s@, a@), final(r).remaining())),
            Err(e) => spec_parse_id_str_attrs(old(r).remaining()) == Err::<
                ((u32, Seq<char>, AttrsV), Seq<u8>),
                _,
            >(e),
        },
{
    let id = match r.read_u32() {
        Ok(v) => v,
        Err(e) => {
            return Err(e);
        },
    };
    let s = match r.read_string() {
        Ok(v) => v,
        Err(e) => {
            return Err(e);
        },
    };
    let a = match Attrs::deserialize(r) {
        Ok(v) => v,
        Err(e) => {
            return Err(e);
        },
    };
    Ok((id, s, a))
}

/// Parses a request id, one string field and an attribute value.
pub open spec fn spec_parse_id_str_attrs(b: Seq<u8>) -> SpecParse<(u32, Seq<char>, AttrsV)> {
    match spec_parse_u32(b) {
        Ok((id, b)) => match spec_parse_string(b) {
            Ok((s, b)) => match <Attrs as Deserialize>::spec_parse(b) {
                Ok((a, b)) => Ok(((id, s, a), b)),
                Err(e) => Err(e),
            },
            Err(e) => Err(e),
        },
        Err(e) => Err(e),
    }
}

/// Parsing inverts serializing for the id-and-string shape.
proof fn lemma_rt_id_str(id: u32, s: Seq<char>, rest: Seq<u8>)
    requires
        string_len_ok(s),
    ensures
        spec_parse_id_str((spec_ser_u32(id) + spec_ser_string(s)) + rest) == Ok::<
            _,
            ProtocolError,
        >(((id, s), rest)),
{
    lemma_assoc(spec_ser_u32(id), spec_ser_string(s), rest);
    lemma_parse_ser_u32(id, spec_ser_string(s) + rest);
    lemma_parse_ser_string(s, rest);
}

/// Parsing inverts serializing for the id-and-two-strings shape.
proof fn lemma_rt_id_str2(id: u32, x: Seq<char>, y: Seq<char>, rest: Seq<u8>)
    requires
        string_len_ok(x),
        string_len_ok(y),
    ensures
        spec_parse_id_str2((spec_ser_u32(id) + spec_ser_string(x) + spec_ser_string(y)) + rest)
            == Ok::<_, ProtocolError>(((id, x, y), rest)),
{
    lemma_assoc(spec_ser_u32(id) + spec_ser_string(x), spec_ser_string(y), rest);
    lemma_assoc(spec_ser_u32(id), spec_ser_string(x), spec_ser_string(y) + rest);
    lemma_parse_ser_u32(id, spec_ser_string(x) + (spec_ser_string(y) + rest));
    lemma_parse_ser_string(x, spec_ser_string(y) + rest);
    lemma_parse_ser_string(y, rest);
}

/// Parsing inverts serializing for the id, string and attributes shape.
proof fn lemma_rt_id_str_attrs(id: u32, s: Seq<char>, a: AttrsV, rest: Seq<u8>)
    requires
        string_len_ok(s),
        <Attrs as Serialize>::len_ok(a),
    ensures
        spec_parse_id_str_attrs(
            (spec_ser_u32(id) + spec_ser_string(s) + <Attrs as Serialize>::spec_ser(a)) + rest,
        ) == Ok::<_, ProtocolError>(((id, s, a), rest)),
{
    let sa = <Attrs as Serialize>::spec_ser(a);
    lemma_assoc(spec_ser_u32(id) + spec_ser_string(s), sa, rest);
    lemma_assoc(spec_ser_u32(id), spec_ser_string(s), sa + rest);
    lemma_parse_ser_u32(id, spec_ser_string(s) + (sa + rest));
    lemma_parse_ser_string(s, sa + rest);
    lemma_rt_attrs(a, rest);
}

// ----------------------------------------------------------------------
// Client request packets.

impl Serialize for SftpClientPacket {
    open spec fn spec_ser(v: ClientPacketV) -> Seq<u8> {
        match v {
            ClientPacketV::Init { version, extensions } => spec_ser_u8(1) + spec_ser_u32(version)
                + spec_ser_elems::<Extension>(extensions),
            ClientPacketV::Open { id, filename, pflags, attrs } => spec_ser_u8(3) + spec_ser_u32(id)
                + spec_ser_string(filename) + <Pflags as Serialize>::spec_ser(pflags)
                + <Attrs as Serialize>::spec_ser(attrs),
            ClientPacketV::Close { id, handle } => spec_ser_u8(4) + spec_ser_u32(id)
                + spec_ser_string(handle),
            ClientPacketV::Read { id, handle, offset, len } => spec_ser_u8(5) + spec_ser_u32(id)
                + spec_ser_string(handle) + spec_ser_u64(offset) + spec_ser_u32(len),
            ClientPacketV::Write { id, handle, offset, data } => spec_ser_u8(6) + spec_ser_u32(id)
                + spec_ser_string(handle) + spec_ser_u64(offset) + spec_ser_bytes(data),
            ClientPacketV::Lstat { id, path } => spec_ser_u8(7) + spec_ser_u32(id)
                + spec_ser_string(path),
            ClientPacketV::Fstat { id, handle } => spec_ser_u8(8) + spec_ser_u32(id)
                + spec_ser_string(handle),
            ClientPacketV::Setstat { id, path, attrs } => spec_ser_u8(9) + spec_ser_u32(id)
                + spec_ser_string(path) + <Attrs as Serialize>::spec_ser(attrs),
            ClientPacketV::Fsetstat { id, handle, attrs } => spec_ser_u8(10) + spec_ser_u32(id)
                + spec_ser_string(handle) + <Attrs as Serialize>::spec_ser(attrs),
            ClientPacketV::Opendir { id, path } => spec_ser_u8(11) + spec_ser_u32(id)
                + spec_ser_string(path),
            ClientPacketV::Readdir { id, handle } => spec_ser_u8(12) + spec_ser_u32(id)
                + spec_ser_string(handle),
            ClientPacketV::Remove { id, filename } => spec_ser_u8(13) + spec_ser_u32(id)
                + spec_ser_string(filename),
            ClientPacketV::Mkdir { id, path, attrs } => spec_ser_u8(14) + spec_ser_u32(id)
                + spec_ser_string(path) + <Attrs as Serialize>::spec_ser(attrs),
            ClientPacketV::Rmdir { id, path } => spec_ser_u8(15) + spec_ser_u32(id)
                + spec_ser_string(path),
            ClientPacketV::Realpath { id, path } => spec_ser_u8(16) + spec_ser_u32(id)
                + spec_ser_string(path),
            ClientPacketV::Stat { id, path } => spec_ser_u8(17) + spec_ser_u32(id)
                + spec_ser_string(path),
            ClientPacketV::Rename { id, oldpath, newpath } => spec_ser_u8(18) + spec_ser_u32(id)
                + spec_ser_string(oldpath) + spec_ser_string(newpath),
            ClientPacketV::Readlink { id, path } => spec_ser_u8(19) + spec_ser_u32(id)
                + spec_ser_string(path),
            // The two path fields of Symlink are written in swapped order,
            // target first, to stay wire-compatible with a historical
            // server's non-conforming behaviour.
            ClientPacketV::Symlink { id, linkpath, targetpath } => spec_ser_u8(20) + spec_ser_u32(
                id,
            ) + spec_ser_string(targetpath) + spec_ser_string(linkpath),
            ClientPacketV::Extended { id, extended_request } => spec_ser_u8(200) + spec_ser_u32(id)
                + <ExtendedRequest as Serialize>::spec_ser(extended_request),
        }
    }

    open spec fn len_ok(v: ClientPacketV) -> bool {
        match v {
            ClientPacketV::Init { version, extensions } => elems_len_ok::<Extension>(extensions),
            ClientPacketV::Open { id, filename, pflags, attrs } => string_len_ok(filename)
                && <Attrs as Serialize>::len_ok(attrs),
            ClientPacketV::Close { id, handle } => string_len_ok(handle),
            ClientPacketV::Read { id, handle, offset, len } => string_len_ok(handle),
            ClientPacketV::Write { id, handle, offset, data } => string_len_ok(handle)
                && bytes_len_ok(data),
            ClientPacketV::Lstat { id, path } => string_len_ok(path),
            ClientPacketV::Fstat { id, handle } => string_len_ok(handle),
            ClientPacketV::Setstat { id, path, attrs } => string_len_ok(path)
                && <Attrs as Serialize>::len_ok(attrs),
            ClientPacketV::Fsetstat { id, handle, attrs } => string_len_ok(handle)
                && <Attrs as Serialize>::len_ok(attrs),
            ClientPacketV::Opendir { id, path } => string_len_ok(path),
            ClientPacketV::Readdir { id, handle } => string_len_ok(handle),
            ClientPacketV::Remove { id, filename } => string_len_ok(filename),
            ClientPacketV::Mkdir { id, path, attrs } => string_len_ok(path)
                && <Attrs as Serialize>::len_ok(attrs),
            ClientPacketV::Rmdir { id, path } => string_len_ok(path),
            ClientPacketV::Realpath { id, path } => string_len_ok(path),
            ClientPacketV::Stat { id, path } => string_len_ok(path),
            ClientPacketV::Rename { id, oldpath, newpath } => string_len_ok(oldpath)
                && string_len_ok(newpath),
            ClientPacketV::Readlink { id, path } => string_len_ok(path),
            ClientPacketV::Symlink { id, linkpath, targetpath } => string_len_ok(linkpath)
                && string_len_ok(targetpath),
            ClientPacketV::Extended { id, extended_request } => <ExtendedRequest as Serialize>::len_ok(
                extended_request,
            ),
        }
    }

    #[verifier::rlimit(100)]
    fn serialize(&self, out: &mut Vec<u8>) -> (r: Result<(), ProtocolError>) {
        match self {
            SftpClientPacket::Init { version, extensions } => {
                write_u8(out, 1);
                write_u32(out, *version);
                extensions.serialize(out)?;
                proof {
                    assert(out@ =~= old(out)@ + Self::spec_ser(self@));
                }
                Ok(())
            },
            SftpClientPacket::Open { id, filename, pflags, attrs } => {
                write_u8(out, 3);
                write_u32(out, *id);
                write_string(out, filename.as_str())?;
                pflags.serialize(out)?;
                attrs.serialize(out)?;
                proof {
                    assert(out@ =~= old(out)@ + Self::spec_ser(self@));
                }
                Ok(())
            },
            SftpClientPacket::Close { id, handle } => write_id_str(out, 4, *id, handle),
            SftpClientPacket::Read { id, handle, offset, len } => {
                write_u8(out, 5);
                write_u32(out, *id);
                write_string(out, handle.as_str())?;
                write_u64(out, *offset);
                write_u32(out, *len);
                proof {
                    assert(out@ =~= old(out)@ + Self::spec_ser(self@));
                }
                Ok(())
            },
            SftpClientPacket::Write { id, handle, offset, data } => {
                write_u8(out, 6);
                write_u32(out, *id);
                write_string(out, handle.as_str())?;
                write_u64(out, *offset);
                write_bytes(out, data.0.as_slice())?;
                proof {
                    assert(out@ =~= old(out)@ + Self::spec_ser(self@));
                }
                Ok(())
            },
            SftpClientPacket::Lstat { id, path } => write_id_str(out, 7, *id, path),
            SftpClientPacket::Fstat { id, handle } => write_id_str(out, 8, *id, handle),
            SftpClientPacket::Setstat { id, path, attrs } => write_id_str_attrs(
                out,
                9,
                *id,
                path,
                attrs,
            ),
            SftpClientPacket::Fsetstat { id, handle, attrs } => write_id_str_attrs(
                out,
                10,
                *id,
                handle,
                attrs,
            ),
            SftpClientPacket::Opendir { id, path } => write_id_str(out, 11, *id, path),
            SftpClientPacket::Readdir { id, handle } => write_id_str(out, 12, *id, handle),
            SftpClientPacket::Remove { id, filename } => write_id_str(out, 13, *id, filename),
            SftpClientPacket::Mkdir { id, path, attrs } => write_id_str_attrs(
                out,
                14,
                *id,
                path,
                attrs,
            ),
            SftpClientPacket::Rmdir { id, path } => write_id_str(out, 15, *id, path),
            SftpClientPacket::Realpath { id, path } => write_id_str(out, 16, *id, path),
            SftpClientPacket::Stat { id, path } => write_id_str(out, 17, *id, path),
            SftpClientPacket::Rename { id, oldpath, newpath } => write_id_str2(
                out,
                18,
                *id,
                oldpath,
                newpath,
            ),
            SftpClientPacket::Readlink { id, path } => write_id_str(out, 19, *id, path),
            SftpClientPacket::Symlink { id, linkpath, targetpath } => write_id_str2(
                out,
                20,
                *id,
                targetpath,
                linkpath,
            ),
            SftpClientPacket::Extended { id, extended_request } => {
                write_u8(out, 200);
                write_u32(out, *id);
                extended_request.serialize(out)?;
                proof {
                    assert(out@ =~= old(out)@ + Self::spec_ser(self@));
                }
                Ok(())
            },
        }
    }
}

// Per-opcode request parsers, one small spec function each, so that a
// proof about one opcode unfolds only that opcode's parser.

pub open spec fn spec_parse_init(b: Seq<u8>) -> SpecParse<ClientPacketV> {
    match spec_parse_u32(b) {
        Ok((version, b)) => match <VecEos<Extension> as Deserialize>::spec_parse(b) {
            Ok((extensions, b)) => Ok((ClientPacketV::Init { version, extensions }, b)),
            Err(e) => Err(e),
        },
        Err(e) => Err(e),
    }
}

pub open spec fn spec_parse_open(b: Seq<u8>) -> SpecParse<ClientPacketV> {
    match spec_parse_id_str(b) {
        Ok(((id, filename), b)) => match <Pflags as Deserialize>::spec_parse(b) {
            Ok((pflags, b)) => match <Attrs as Deserialize>::spec_parse(b) {
                Ok((attrs, b)) => Ok((ClientPacketV::Open { id, filename, pflags, attrs }, b)),
                Err(e) => Err(e),
            },
            Err(e) => Err(e),
        },
        Err(e) => Err(e),
    }
}

pub open spec fn spec_parse_close(b: Seq<u8>) -> SpecParse<ClientPacketV> {
    match spec_parse_id_str(b) {
        Ok(((id, handle), b)) => Ok((ClientPacketV::Close { id, handle }, b)),
        Err(e) => Err(e),
    }
}

pub open spec fn spec_parse_read(b: Seq<u8>) -> SpecParse<ClientPacketV> {
    match spec_parse_id_str(b) {
        Ok(((id, handle), b)) => match spec_parse_u64(b) {
            Ok((offset, b)) => match spec_parse_u32(b) {
                Ok((len, b)) => Ok((ClientPacketV::Read { id, handle, offset, len }, b)),
                Err(e) => Err(e),
            },
            Err(e) => Err(e),
        },
        Err(e) => Err(e),
    }
}

pub open spec fn spec_parse_write(b: Seq<u8>) -> SpecParse<ClientPacketV> {
    match spec_parse_id_str(b) {
        Ok(((id, handle), b)) => match spec_parse_u64(b) {
            Ok((offset, b)) => match spec_parse_bytes(b) {
                Ok((data, b)) => Ok((ClientPacketV::Write { id, handle, offset, data }, b)),
                Err(e) => Err(e),
            },
            Err(e) => Err(e),
        },
        Err(e) => Err(e),
    }
}

pub open spec fn spec_parse_lstat(b: Seq<u8>) -> SpecParse<ClientPacketV> {
    match spec_parse_id_str(b) {
        Ok(((id, path), b)) => Ok((ClientPacketV::Lstat { id, path }, b)),
        Err(e) => Err(e),
    }
}

pub open spec fn spec_parse_fstat(b: Seq<u8>) -> SpecParse<ClientPacketV> {
    match spec_parse_id_str(b) {
        Ok(((id, handle), b)) => Ok((ClientPacketV::Fstat { id, handle }, b)),
        Err(e) => Err(e),
    }
}

pub open spec fn spec_parse_setstat(b: Seq<u8>) -> SpecParse<ClientPacketV> {
    match spec_parse_id_str_attrs(b) {
        Ok(((id, path, attrs), b)) => Ok((ClientPacketV::Setstat { id, path, attrs }, b)),
        Err(e) => Err(e),
    }
}

pub open spec fn spec_parse_fsetstat(b: Seq<u8>) -> SpecParse<ClientPacketV> {
    match spec_parse_id_str_attrs(b) {
        Ok(((id, handle, attrs), b)) => Ok((ClientPacketV::Fsetstat { id, handle, attrs }, b)),
        Err(e) => Err(e),
    }
}

pub open spec fn spec_parse_opendir(b: Seq<u8>) -> SpecParse<ClientPacketV> {
    match spec_parse_id_str(b) {
        Ok(((id, path), b)) => Ok((ClientPacketV::Opendir { id, path }, b)),
        Err(e) => Err(e),
    }
}

pub open spec fn spec_parse_readdir(b: Seq<u8>) -> SpecParse<ClientPacketV> {
    match spec_parse_id_str(b) {
        Ok(((id, handle), b)) => Ok((ClientPacketV::Readdir { id, handle }, b)),
        Err(e) => Err(e),
    }
}

pub open spec fn spec_parse_remove(b: Seq<u8>) -> SpecParse<ClientPacketV> {
    match spec_parse_id_str(b) {
        Ok(((id, filename), b)) => Ok((ClientPacketV::Remove { id, filename }, b)),
        Err(e) => Err(e),
    }
}

pub open spec fn spec_parse_mkdir(b: Seq<u8>) -> SpecParse<ClientPacketV> {
    match spec_parse_id_str_attrs(b) {
        Ok(((id, path, attrs), b)) => Ok((ClientPacketV::Mkdir { id, path, attrs }, b)),
        Err(e) => Err(e),
    }
}

pub open spec fn spec_parse_rmdir(b: Seq<u8>) -> SpecParse<ClientPacketV> {
    match spec_parse_id_str(b) {
        Ok(((id, path), b)) => Ok((ClientPacketV::Rmdir { id, path }, b)),
        Err(e) => Err(e),
    }
}

pub open spec fn spec_parse_realpath(b: Seq<u8>) -> SpecParse<ClientPacketV> {
    match spec_parse_id_str(b) {
        Ok(((id, path), b)) => Ok((ClientPacketV::Realpath { id, path }, b)),
        Err(e) => Err(e),
    }
}

pub open spec fn spec_parse_stat(b: Seq<u8>) -> SpecParse<ClientPacketV> {
    match spec_parse_id_str(b) {
        Ok(((id, path), b)) => Ok((ClientPacketV::Stat { id, path }, b)),
        Err(e) => Err(e),
    }
}

pub open spec fn spec_parse_rename(b: Seq<u8>) -> SpecParse<ClientPacketV> {
    match spec_parse_id_str2(b) {
        Ok(((id, oldpath, newpath), b)) => Ok((ClientPacketV::Rename { id, oldpath, newpath }, b)),
        Err(e) => Err(e),
    }
}

pub open spec fn spec_parse_readlink(b: Seq<u8>) -> SpecParse<ClientPacketV> {
    match spec_parse_id_str(b) {
        Ok(((id, path), b)) => Ok((ClientPacketV::Readlink { id, path }, b)),
        Err(e) => Err(e),
    }
}

/// The two path fields are read back in the same swapped order they are
/// written: target first, then link.
pub open spec fn spec_parse_symlink(b: Seq<u8>) -> SpecParse<ClientPacketV> {
    match spec_parse_id_str2(b) {
        Ok(((id, targetpath, linkpath), b)) => Ok(
            (ClientPacketV::Symlink { id, linkpath, targetpath }, b),
        ),
        Err(e) => Err(e),
    }
}

pub open spec fn spec_parse_extended(b: Seq<u8>) -> SpecParse<ClientPacketV> {
    match spec_parse_u32(b) {
        Ok((id, b)) => match <ExtendedRequest as Deserialize>::spec_parse(b) {
            Ok((extended_request, b)) => Ok((ClientPacketV::Extended { id, extended_request }, b)),
            Err(e) => Err(e),
        },
        Err(e) => Err(e),
    }
}

/// Dispatches a request opcode to its parser; unknown opcodes are a
/// distinct, recoverable error.
pub open spec fn spec_parse_client_body(op: u8, b: Seq<u8>) -> SpecParse<ClientPacketV> {
    if op == 1 {
        spec_parse_init(b)
    } else if op == 3 {
        spec_parse_open(b)
    } else if op == 4 {
        spec_parse_close(b)
    } else if op == 5 {
        spec_parse_read(b)
    } else if op == 6 {
        spec_parse_write(b)
    } else if op == 7 {
        spec_parse_lstat(b)
    } else if op == 8 {
        spec_parse_fstat(b)
    } else if op == 9 {
        spec_parse_setstat(b)
    } else if op == 10 {
        spec_parse_fsetstat(b)
    } else if op == 11 {
        spec_parse_opendir(b)
    } else if op == 12 {
        spec_parse_readdir(b)
    } else if op == 13 {
        spec_parse_remove(b)
    } else if op == 14 {
        spec_parse_mkdir(b)
    } else if op == 15 {
        spec_parse_rmdir(b)
    } else if op == 16 {
        spec_parse_realpath(b)
    } else if op == 17 {
        spec_parse_stat(b)
    } else if op == 18 {
        spec_parse_rename(b)
    } else if op == 19 {
        spec_parse_readlink(b)
    } else if op == 20 {
        spec_parse_symlink(b)
    } else if op == 200 {
        spec_parse_extended(b)
    } else {
        Err(ProtocolError::UnknownCommand)
    }
}

/// Reads the body shared by the ten requests that carry just an id and one
/// string, and builds the variant for the given opcode.
fn deserialize_id_str_packet(r: &mut Reader<'_>, op: u8) -> (res: Result<
    SftpClientPacket,
    ProtocolError,
>)
    requires
        old(r).wf(),
        op == 4 || op == 7 || op == 8 || op == 11 || op == 12 || op == 13 || op == 15 || op == 16
            || op == 17 || op == 19,
    ensures
        final(r).wf(),
        match res {
            Ok(p) => spec_parse_client_body(op, old(r).remaining()) == Ok::<_, ProtocolError>((
                p@,
                final(r).remaining(),
            )),
            Err(e) => spec_parse_client_body(op, old(r).remaining()) == Err::<
                (ClientPacketV, Seq<u8>),
                _,
            >(e),
        },
{
    let (id, s) = match read_id_str(r) {
        Ok(v) => v,
        Err(e) => {
            return Err(e);
        },
    };
    if op == 4 {
        Ok(SftpClientPacket::Close { id, handle: s })
    } else if op == 7 {
        Ok(SftpClientPacket::Lstat { id, path: s })
    } else if op == 8 {
        Ok(SftpClientPacket::Fstat { id, handle: s })
    } else if op == 11 {
        Ok(SftpClientPacket::Opendir { id, path: s })
    } else if op == 12 {
        Ok(SftpClientPacket::Readdir { id, handle: s })
    } else if op == 13 {
        Ok(SftpClientPacket::Remove { id, filename: s })
    } else if op == 15 {
        Ok(SftpClientPacket::Rmdir { id, path: s })
    } else if op == 16 {
        Ok(SftpClientPacket::Realpath { id, path: s })
    } else if op == 17 {
        Ok(SftpClientPacket::Stat { id, path: s })
    } else {
        Ok(SftpClientPacket::Readlink { id, path: s })
    }
}

/// Reads the body of the remaining fixed-shape requests: read, write, the
/// attribute-carrying requests, rename and symlink.
#[verifier::rlimit(100)]
fn deserialize_other_packet(r: &mut Reader<'_>, op: u8) -> (res: Result<
    SftpClientPacket,
    ProtocolError,
>)
    requires
        old(r).wf(),
        op == 5 || op == 6 || op == 9 || op == 10 || op == 14 || op == 18 || op == 20,
    ensures
        final(r).wf(),
        match res {
            Ok(p) => spec_parse_client_body(op, old(r).remaining()) == Ok::<_, ProtocolError>((
                p@,
                final(r).remaining(),
            )),
            Err(e) => spec_parse_client_body(op, old(r).remaining()) == Err::<
                (ClientPacketV, Seq<u8>),
                _,
            >(e),
        },
{
    if op == 5 {
        let (id, handle) = match read_id_str(r) {
            Ok(v) => v,
            Err(e) => {
                return Err(e);
            },
        };
        let offset = match r.read_u64() {
            Ok(v) => v,
            Err(e) => {
                return Err(e);
            },
        };
        let len = match r.read_u32() {
            Ok(v) => v,
            Err(e) => {
                return Err(e);
            },
        };
        Ok(SftpClientPacket::Read { id, handle, offset, len })
    } else if op == 6 {
        let (id, handle) = match read_id_str(r) {
            Ok(v) => v,
            Err(e) => {
                return Err(e);
            },
        };
        let offset = match r.read_u64() {
            Ok(v) => v,
            Err(e) => {
                return Err(e);
            },
        };
        let data = match r.read_bytes() {
            Ok(v) => v,
            Err(e) => {
                return Err(e);
            },
        };
        Ok(SftpClientPacket::Write { id, handle, offset, data: VecU8(data) })
    } else if op == 9 {
        match read_id_str_attrs(r) {
            Ok((id, path, attrs)) => Ok(SftpClientPacket::Setstat { id, path, attrs }),
            Err(e) => Err(e),
        }
    } else if op == 10 {
        match read_id_str_attrs(r) {
            Ok((id, handle, attrs)) => Ok(SftpClientPacket::Fsetstat { id, handle, attrs }),
            Err(e) => Err(e),
        }
    } else if op == 14 {
        match read_id_str_attrs(r) {
            Ok((id, path, attrs)) => Ok(SftpClientPacket::Mkdir { id, path, attrs }),
            Err(e) => Err(e),
        }
    } else if op == 18 {
        match read_id_str2(r) {
            Ok((id, oldpath, newpath)) => Ok(SftpClientPacket::Rename { id, oldpath, newpath }),
            Err(e) => Err(e),
        }
    } else {
        match read_id_str2(r) {
            Ok((id, targetpath, linkpath)) => Ok(
                SftpClientPacket::Symlink { id, linkpath, targetpath },
            ),
            Err(e) => Err(e),
        }
    }
}

impl Deserialize for SftpClientPacket {
    open spec fn spec_parse(b: Seq<u8>) -> SpecParse<ClientPacketV> {
        match spec_parse_u8(b) {
            Ok((op, b)) => spec_parse_client_body(op, b),
            Err(e) => Err(e),
        }
    }

    #[verifier::rlimit(100)]
    fn deserialize(r: &mut Reader<'_>) -> (res: Result<Self, ProtocolError>) {
        let op = match r.read_u8() {
            Ok(v) => v,
            Err(e) => {
                return Err(e);
            },
        };
        if op == 1 {
            let version = match r.read_u32() {
                Ok(v) => v,
                Err(e) => {
                    return Err(e);
                },
            };
            let extensions = match VecEos::<Extension>::deserialize(r) {
                Ok(v) => v,
                Err(e) => {
                    return Err(e);
                },
            };
            Ok(SftpClientPacket::Init { version, extensions })
        } else if op == 3 {
            let (id, filename) = match read_id_str(r) {
                Ok(v) => v,
                Err(e) => {
                    return Err(e);
                },
            };
            let pflags = match Pflags::deserialize(r) {
                Ok(v) => v,
                Err(e) => {
                    return Err(e);
                },
            };
            let attrs = match Attrs::deserialize(r) {
                Ok(v) => v,
                Err(e) => {
                    return Err(e);
                },
            };
            Ok(SftpClientPacket::Open { id, filename, pflags, attrs })
        } else if op == 4 || op == 7 || op == 8 || op == 11 || op == 12 || op == 13 || op == 15
            || op == 16 || op == 17 || op == 19 {
            deserialize_id_str_packet(r, op)
        } else if op == 5 || op == 6 || op == 9 || op == 10 || op == 14 || op == 18 || op == 20 {
            deserialize_other_packet(r, op)
        } else if op == 200 {
            let id = match r.read_u32() {
                Ok(v) => v,
                Err(e) => {
                    return Err(e);
                },
            };
            let extended_request = match ExtendedRequest::deserialize(r) {
                Ok(v) => v,
                Err(e) => {
                    return Err(e);
                },
            };
            Ok(SftpClientPacket::Extended { id, extended_request })
        } else {
            Err(ProtocolError::UnknownCommand)
        }
    }
}

// ----------------------------------------------------------------------
// Server response packets.

impl Serialize for SftpServerPacket {
    open spec fn spec_ser(v: ServerPacketV) -> Seq<u8> {
        match v {
            ServerPacketV::Version { version, extensions } => spec_ser_u8(2) + spec_ser_u32(version)
                + spec_ser_elems::<Extension>(extensions),
            ServerPacketV::Status { id, status_code, error_message, language_tag } => spec_ser_u8(
                101,
            ) + spec_ser_u32(id) + <StatusCode as Serialize>::spec_ser(status_code)
                + spec_ser_string(error_message) + spec_ser_string(language_tag),
            ServerPacketV::Handle { id, handle } => spec_ser_u8(102) + spec_ser_u32(id)
                + spec_ser_string(handle),
            ServerPacketV::Data { id, data } => spec_ser_u8(103) + spec_ser_u32(id)
                + spec_ser_bytes(data),
            ServerPacketV::Name { id, names } => spec_ser_u8(104) + spec_ser_u32(id)
                + spec_ser_u32(names.len() as u32) + spec_ser_elems::<Name>(names),
            ServerPacketV::Attrs { id, attrs } => spec_ser_u8(105) + spec_ser_u32(id)
                + <Attrs as Serialize>::spec_ser(attrs),
            ServerPacketV::ExtendedReply { id, data } => spec_ser_u8(201) + spec_ser_u32(id)
                + spec_ser_bytes(data),
        }
    }

    open spec fn len_ok(v: ServerPacketV) -> bool {
        match v {
            ServerPacketV::Version { version, extensions } => elems_len_ok::<Extension>(extensions),
            ServerPacketV::Status { id, status_code, error_message, language_tag } => string_len_ok(
                error_message,
            ) && string_len_ok(language_tag),
            ServerPacketV::Handle { id, handle } => string_len_ok(handle),
            ServerPacketV::Data { id, data } => bytes_len_ok(data),
            ServerPacketV::Name { id, names } => names.len() <= MAX_WIRE_LEN && elems_len_ok::<
                Name,
            >(names),
            ServerPacketV::Attrs { id, attrs } => <Attrs as Serialize>::len_ok(attrs),
            ServerPacketV::ExtendedReply { id, data } => bytes_len_ok(data),
        }
    }

    #[verifier::rlimit(100)]
    fn serialize(&self, out: &mut Vec<u8>) -> (r: Result<(), ProtocolError>) {
        match self {
            SftpServerPacket::Version { version, extensions } => {
                write_u8(out, 2);
                write_u32(out, *version);
                extensions.serialize(out)?;
                proof {
                    assert(out@ =~= old(out)@ + Self::spec_ser(self@));
                }
                Ok(())
            },
            SftpServerPacket::Status { id, status_code, error_message, language_tag } => {
                write_u8(out, 101);
                write_u32(out, *id);
                status_code.serialize(out)?;
                write_string(out, error_message.as_str())?;
                write_string(out, language_tag.as_str())?;
                proof {
                    assert(out@ =~= old(out)@ + Self::spec_ser(self@));
                }
                Ok(())
            },
            SftpServerPacket::Handle { id, handle } => write_id_str(out, 102, *id, handle),
            SftpServerPacket::Data { id, data } => {
                write_u8(out, 103);
                write_u32(out, *id);
                write_bytes(out, data.0.as_slice())?;
                proof {
                    assert(out@ =~= old(out)@ + Self::spec_ser(self@));
                }
                Ok(())
            },
            SftpServerPacket::Name { id, names } => {
                write_u8(out, 104);
                write_u32(out, *id);
                if names.len() as u64 > MAX_WIRE_LEN {
                    return Err(ProtocolError::InvalidLength);
                }
                write_u32(out, names.len() as u32);
                serialize_elems(names, out)?;
                proof {
                    assert(out@ =~= old(out)@ + Self::spec_ser(self@));
                }
                Ok(())
            },
            SftpServerPacket::Attrs { id, attrs } => {
                write_u8(out, 105);
                write_u32(out, *id);
                attrs.serialize(out)?;
                proof {
                    assert(out@ =~= old(out)@ + Self::spec_ser(self@));
                }
                Ok(())
            },
            SftpServerPacket::ExtendedReply { id, data } => {
                write_u8(out, 201);
                write_u32(out, *id);
                write_bytes(out, data.0.as_slice())?;
                proof {
                    assert(out@ =~= old(out)@ + Self::spec_ser(self@));
                }
                Ok(())
            },
        }
    }
}

// Per-opcode response parsers.

pub open spec fn spec_parse_version(b: Seq<u8>) -> SpecParse<ServerPacketV> {
    match spec_parse_u32(b) {
        Ok((version, b)) => match <VecEos<Extension> as Deserialize>::spec_parse(b) {
            Ok((extensions, b)) => Ok((ServerPacketV::Version { version, extensions }, b)),
            Err(e) => Err(e),
        },
        Err(e) => Err(e),
    }
}

pub open spec fn spec_parse_status(b: Seq<u8>) -> SpecParse<ServerPacketV> {
    match spec_parse_u32(b) {
        Ok((id, b)) => match <StatusCode as Deserialize>::spec_parse(b) {
            Ok((status_code, b)) => match spec_parse_string(b) {
                Ok((error_message, b)) => match spec_parse_string(b) {
                    Ok((language_tag, b)) => Ok(
                        (
                            ServerPacketV::Status {
                                id,
                                status_code,
                                error_message,
                                language_tag,
                            },
                            b,
                        ),
                    ),
                    Err(e) => Err(e),
                },
                Err(e) => Err(e),
            },
            Err(e) => Err(e),
        },
        Err(e) => Err(e),
    }
}

pub open spec fn spec_parse_handle_resp(b: Seq<u8>) -> SpecParse<ServerPacketV> {
    match spec_parse_id_str(b) {
        Ok(((id, handle), b)) => Ok((ServerPacketV::Handle { id, handle }, b)),
        Err(e) => Err(e),
    }
}

pub open spec fn spec_parse_data_resp(b: Seq<u8>) -> SpecParse<ServerPacketV> {
    match spec_parse_u32(b) {
        Ok((id, b)) => match spec_parse_bytes(b) {
            Ok((data, b)) => Ok((ServerPacketV::Data { id, data }, b)),
            Err(e) => Err(e),
        },
        Err(e) => Err(e),
    }
}

pub open spec fn spec_parse_name_resp(b: Seq<u8>) -> SpecParse<ServerPacketV> {
    match spec_parse_u32(b) {
        Ok((id, b)) => match spec_parse_u32(b) {
            Ok((n, b)) => match spec_parse_elems::<Name>(b, n as nat) {
                Ok((names, b)) => Ok((ServerPacketV::Name { id, names }, b)),
                Err(e) => Err(e),
            },
            Err(e) => Err(e),
        },
        Err(e) => Err(e),
    }
}

pub open spec fn spec_parse_attrs_resp(b: Seq<u8>) -> SpecParse<ServerPacketV> {
    match spec_parse_u32(b) {
        Ok((id, b)) => match <Attrs as Deserialize>::spec_parse(b) {
            Ok((attrs, b)) => Ok((ServerPacketV::Attrs { id, attrs }, b)),
            Err(e) => Err(e),
        },
        Err(e) => Err(e),
    }
}

pub open spec fn spec_parse_extended_reply(b: Seq<u8>) -> SpecParse<ServerPacketV> {
    match spec_parse_u32(b) {
        Ok((id, b)) => match spec_parse_bytes(b) {
            Ok((data, b)) => Ok((ServerPacketV::ExtendedReply { id, data }, b)),
            Err(e) => Err(e),
        },
        Err(e) => Err(e),
    }
}

/// Dispatches a response opcode to its parser.
pub open spec fn spec_parse_server_body(op: u8, b: Seq<u8>) -> SpecParse<ServerPacketV> {
    if op == 2 {
        spec_parse_version(b)
    } else if op == 101 {
        spec_parse_status(b)
    } else if op == 102 {
        spec_parse_handle_resp(b)
    } else if op == 103 {
        spec_parse_data_resp(b)
    } else if op == 104 {
        spec_parse_name_resp(b)
    } else if op == 105 {
        spec_parse_attrs_resp(b)
    } else if op == 201 {
        spec_parse_extended_reply(b)
    } else {
        Err(ProtocolError::UnknownCommand)
    }
}

/// Reads the body of a `Status` response.
fn deserialize_status_resp(r: &mut Reader<'_>) -> (res: Result<SftpServerPacket, ProtocolError>)
    requires
        old(r).wf(),
    ensures
        final(r).wf(),
        match res {
            Ok(p) => spec_parse_status(old(r).remaining()) == Ok::<_, ProtocolError>((
                p@,
                final(r).remaining(),
            )),
            Err(e) => spec_parse_status(old(r).remaining()) == Err::<(ServerPacketV, Seq<u8>), _>(
                e,
            ),
        },
{
    let id = match r.read_u32() {
        Ok(v) => v,
        Err(e) => {
            return Err(e);
        },
    };
    let status_code = match StatusCode::deserialize(r) {
        Ok(v) => v,
        Err(e) => {
            return Err(e);
        },
    };
    let error_message = match r.read_string() {
        Ok(v) => v,
        Err(e) => {
            return Err(e);
        },
    };
    let language_tag = match r.read_string() {
        Ok(v) => v,
        Err(e) => {
            return Err(e);
        },
    };
    Ok(SftpServerPacket::Status { id, status_code, error_message, language_tag })
}

/// Reads the body of a `Name` response.
fn deserialize_name_resp(r: &mut Reader<'_>) -> (res: Result<SftpServerPacket, ProtocolError>)
    requires
        old(r).wf(),
    ensures
        final(r).wf(),
        match res {
            Ok(p) => spec_parse_name_resp(old(r).remaining()) == Ok::<_, ProtocolError>((
                p@,
                final(r).remaining(),
            )),
            Err(e) => spec_parse_name_resp(old(r).remaining()) == Err::<
                (ServerPacketV, Seq<u8>),
                _,
            >(e),
        },
{
    let id = match r.read_u32() {
        Ok(v) => v,
        Err(e) => {
            return Err(e);
        },
    };
    let n = match r.read_u32() {
        Ok(v) => v,
        Err(e) => {
            return Err(e);
        },
    };
    let names = match deserialize_elems::<Name>(r, n) {
        Ok(v) => v,
        Err(e) => {
            return Err(e);
        },
    };
    Ok(SftpServerPacket::Name { id, names })
}

impl Deserialize for SftpServerPacket {
    open spec fn spec_parse(b: Seq<u8>) -> SpecParse<ServerPacketV> {
        match spec_parse_u8(b) {
            Ok((op, b)) => spec_parse_server_body(op, b),
            Err(e) => Err(e),
        }
    }

    #[verifier::rlimit(100)]
    fn deserialize(r: &mut Reader<'_>) -> (res: Result<Self, ProtocolError>) {
        let op = match r.read_u8() {
            Ok(v) => v,
            Err(e) => {
                return Err(e);
            },
        };
        if op == 2 {
            let version = match r.read_u32() {
                Ok(v) => v,
                Err(e) => {
                    return Err(e);
                },
            };
            let extensions = match VecEos::<Extension>::deserialize(r) {
                Ok(v) => v,
                Err(e) => {
                    return Err(e);
                },
            };
            Ok(SftpServerPacket::Version { version, extensions })
        } else if op == 101 {
            deserialize_status_resp(r)
        } else if op == 102 {
            match read_id_str(r) {
                Ok((id, handle)) => Ok(SftpServerPacket::Handle { id, handle }),
                Err(e) => Err(e),
            }
        } else if op == 103 {
            let id = match r.read_u32() {
                Ok(v) => v,
                Err(e) => {
                    return Err(e);
                },
            };
            let data = match r.read_bytes() {
                Ok(v) => v,
                Err(e) => {
                    return Err(e);
                },
            };
            Ok(SftpServerPacket::Data { id, data: VecU8(data) })
        } else if op == 104 {
            deserialize_name_resp(r)
        } else if op == 105 {
            let id = match r.read_u32() {
                Ok(v) => v,
                Err(e) => {
                    return Err(e);
                },
            };
            let attrs = match Attrs::deserialize(r) {
                Ok(v) => v,
                Err(e) => {
                    return Err(e);
                },
            };
            Ok(SftpServerPacket::Attrs { id, attrs })
        } else if op == 201 {
            let id = match r.read_u32() {
                Ok(v) => v,
                Err(e) => {
                    return Err(e);
                },
            };
            let data = match r.read_bytes() {
                Ok(v) => v,
                Err(e) => {
                    return Err(e);
                },
            };
            Ok(SftpServerPacket::ExtendedReply { id, data: VecU8(data) })
        } else {
            Err(ProtocolError::UnknownCommand)
        }
    }
}

// ----------------------------------------------------------------------
// Frames.

/// A frame: the payload behind its 32-bit length prefix.
pub open spec fn spec_frame(payload: Seq<u8>) -> Seq<u8> {
    spec_ser_u32(payload.len() as u32) + payload
}

/// Decodes one frame: reads the length prefix, rejects a buffer shorter
/// than the declared length, parses exactly the declared bytes, and rejects
/// a packet that does not consume them all. Bytes past the declared length
/// belong to the next frame and are never touched.
pub open spec fn spec_frame_parse<T: Deserialize>(b: Seq<u8>) -> Result<T::V, ProtocolError> {
    if b.len() < 4 {
        Err(ProtocolError::IncompleteBuffer)
    } else {
        match spec_parse_u32(b) {
            Ok((n, rest)) => {
                if rest.len() < n {
                    Err(ProtocolError::IncompleteBuffer)
                } else {
                    match T::spec_parse(rest.take(n as int)) {
                        Ok((p, leftover)) => {
                            if leftover.len() == 0 {
                                Ok(p)
                            } else {
                                Err(ProtocolError::InvalidLength)
                            }
                        },
                        Err(e) => Err(e),
                    }
                }
            },
            Err(e) => Err(e),
        }
    }
}

/// Whether a packet fits in one frame: every field fits its prefix and the
/// whole payload fits the frame's length prefix.
pub open spec fn spec_frame_ok<T: Serialize>(v: T::V) -> bool {
    T::len_ok(v) && T::spec_ser(v).len() <= MAX_WIRE_LEN
}

/// Encodes one value as a frame.
fn frame_to_bytes<T: Serialize>(v: &T) -> (r: Result<Vec<u8>, ProtocolError>)
    ensures
        match r {
            Ok(bytes) => spec_frame_ok::<T>(v@) && bytes@ == spec_frame(T::spec_ser(v@)),
            Err(e) => !spec_frame_ok::<T>(v@) && e == ProtocolError::InvalidLength,
        },
{
    let mut payload: Vec<u8> = Vec::new();
    match v.serialize(&mut payload) {
        Ok(()) => {},
        Err(e) => {
            return Err(e);
        },
    }
    proof {
        assert(payload@ =~= T::spec_ser(v@));
    }
    if payload.len() as u64 > MAX_WIRE_LEN {
        return Err(ProtocolError::InvalidLength);
    }
    let mut res: Vec<u8> = Vec::new();
    write_u32(&mut res, payload.len() as u32);
    res.append(&mut payload);
    Ok(res)
}

/// Decodes one value from a frame.
fn frame_from_bytes<T: Deserialize>(data: &[u8]) -> (r: Result<T, ProtocolError>)
    ensures
        match r {
            Ok(p) => spec_frame_parse::<T>(data@) == Ok::<T::V, ProtocolError>(p@),
            Err(e) => spec_frame_parse::<T>(data@) == Err::<T::V, ProtocolError>(e),
        },
{
    if data.len() < 4 {
        return Err(ProtocolError::IncompleteBuffer);
    }
    let mut rd = Reader::new(data);
    let n = match rd.read_u32() {
        Ok(v) => v,
        Err(e) => {
            return Err(e);
        },
    };
    let n = n as usize;
    if data.len() - 4 < n {
        return Err(ProtocolError::IncompleteBuffer);
    }
    let payload = vstd::slice::slice_subrange(data, 4, 4 + n);
    proof {
        assert(payload@ =~= data@.skip(4).take(n as int));
    }
    let mut pr = Reader::new(payload);
    let p = match T::deserialize(&mut pr) {
        Ok(v) => v,
        Err(e) => {
            return Err(e);
        },
    };
    if pr.len() != 0 {
        return Err(ProtocolError::InvalidLength);
    }
    Ok(p)
}

// ----------------------------------------------------------------------
// Round-trip laws.

/// Helper: an id-and-string body parses back after the opcode is peeled.
proof fn lemma_rt_body_id_str(op: u8, id: u32, s: Seq<char>)
    requires
        string_len_ok(s),
    ensures
        spec_parse_u8(
            (spec_ser_u8(op) + spec_ser_u32(id) + spec_ser_string(s)) + Seq::<u8>::empty(),
        ) == Ok::<_, ProtocolError>((op, (spec_ser_u32(id) + spec_ser_string(s)))),
        spec_parse_id_str(spec_ser_u32(id) + spec_ser_string(s)) == Ok::<_, ProtocolError>((
            (id, s),
            Seq::<u8>::empty(),
        )),
{
    let a = spec_ser_u8(op);
    let b = spec_ser_u32(id);
    let c = spec_ser_string(s);
    lemma_assoc(a, b, c);
    lemma_add_empty((a + b + c));
    lemma_parse_ser_u8(op, b + c);
    lemma_rt_id_str(id, s, Seq::<u8>::empty());
    lemma_add_empty(b + c);
}

/// Parsing inverts serializing for every request variant, with nothing left
/// over: the packet-level half of the round-trip law.
#[verifier::rlimit(100)]
pub proof fn lemma_rt_client_packet(v: ClientPacketV)
    requires
        <SftpClientPacket as Serialize>::len_ok(v),
    ensures
        <SftpClientPacket as Deserialize>::spec_parse(<SftpClientPacket as Serialize>::spec_ser(v))
            == Ok::<_, ProtocolError>((v, Seq::<u8>::empty())),
{
    let empty = Seq::<u8>::empty();
    match v {
        ClientPacketV::Init { version, extensions } => {
            let a = spec_ser_u8(1);
            let b = spec_ser_u32(version);
            let c = spec_ser_elems::<Extension>(extensions);
            lemma_assoc(a, b, c);
            lemma_parse_ser_u8(1, b + c);
            lemma_parse_ser_u32(version, c);
            lemma_rt_eos_extensions(extensions);
        },
        ClientPacketV::Open { id, filename, pflags, attrs } => {
            let a = spec_ser_u8(3);
            let b = spec_ser_u32(id);
            let c = spec_ser_string(filename);
            let d = <Pflags as Serialize>::spec_ser(pflags);
            let e = <Attrs as Serialize>::spec_ser(attrs);
            assert((((a + b) + c) + d) + e =~= a + ((b + c) + (d + e)));
            lemma_parse_ser_u8(3, (b + c) + (d + e));
            lemma_rt_id_str(id, filename, d + e);
            lemma_rt_pflags(pflags, e);
            lemma_add_empty(e);
            lemma_rt_attrs(attrs, empty);
        },
        ClientPacketV::Close { id, handle } => {
            lemma_rt_body_id_str(4, id, handle);
        },
        ClientPacketV::Read { id, handle, offset, len } => {
            let a = spec_ser_u8(5);
            let b = spec_ser_u32(id);
            let c = spec_ser_string(handle);
            let d = spec_ser_u64(offset);
            let e = spec_ser_u32(len);
            assert((((a + b) + c) + d) + e =~= a + ((b + c) + (d + e)));
            lemma_parse_ser_u8(5, (b + c) + (d + e));
            lemma_rt_id_str(id, handle, d + e);
            lemma_parse_ser_u64(offset, e);
            lemma_add_empty(e);
            lemma_parse_ser_u32(len, empty);
        },
        ClientPacketV::Write { id, handle, offset, data } => {
            let a = spec_ser_u8(6);
            let b = spec_ser_u32(id);
            let c = spec_ser_string(handle);
            let d = spec_ser_u64(offset);
            let e = spec_ser_bytes(data);
            assert((((a + b) + c) + d) + e =~= a + ((b + c) + (d + e)));
            lemma_parse_ser_u8(6, (b + c) + (d + e));
            lemma_rt_id_str(id, handle, d + e);
            lemma_parse_ser_u64(offset, e);
            lemma_add_empty(e);
            lemma_parse_ser_bytes(data, empty);
        },
        ClientPacketV::Lstat { id, path } => {
            lemma_rt_body_id_str(7, id, path);
        },
        ClientPacketV::Fstat { id, handle } => {
            lemma_rt_body_id_str(8, id, handle);
        },
        ClientPacketV::Setstat { id, path, attrs } => {
            lemma_rt_body_id_str_attrs(9, id, path, attrs);
        },
        ClientPacketV::Fsetstat { id, handle, attrs } => {
            lemma_rt_body_id_str_attrs(10, id, handle, attrs);
        },
        ClientPacketV::Opendir { id, path } => {
            lemma_rt_body_id_str(11, id, path);
        },
        ClientPacketV::Readdir { id, handle } => {
            lemma_rt_body_id_str(12, id, handle);
        },
        ClientPacketV::Remove { id, filename } => {
            lemma_rt_body_id_str(13, id, filename);
        },
        ClientPacketV::Mkdir { id, path, attrs } => {
            lemma_rt_body_id_str_attrs(14, id, path, attrs);
        },
        ClientPacketV::Rmdir { id, path } => {
            lemma_rt_body_id_str(15, id, path);
        },
        ClientPacketV::Realpath { id, path } => {
            lemma_rt_body_id_str(16, id, path);
        },
        ClientPacketV::Stat { id, path } => {
            lemma_rt_body_id_str(17, id, path);
        },
        ClientPacketV::Rename { id, oldpath, newpath } => {
            lemma_rt_body_id_str2(18, id, oldpath, newpath);
        },
        ClientPacketV::Readlink { id, path } => {
            lemma_rt_body_id_str(19, id, path);
        },
        ClientPacketV::Symlink { id, linkpath, targetpath } => {
            lemma_rt_body_id_str2(20, id, targetpath, linkpath);
        },
        ClientPacketV::Extended { id, extended_request } => {
            let a = spec_ser_u8(200);
            let b = spec_ser_u32(id);
            let c = <ExtendedRequest as Serialize>::spec_ser(extended_request);
            lemma_assoc(a, b, c);
            lemma_parse_ser_u8(200, b + c);
            lemma_parse_ser_u32(id, c);
            lemma_add_empty(c);
            lemma_rt_ext_req(extended_request, empty);
        },
    }
}

/// Helper: an id, string and attributes body parses back after the opcode.
proof fn lemma_rt_body_id_str_attrs(op: u8, id: u32, s: Seq<char>, a: AttrsV)
    requires
        string_len_ok(s),
        <Attrs as Serialize>::len_ok(a),
    ensures
        spec_parse_u8(
            (spec_ser_u8(op) + spec_ser_u32(id) + spec_ser_string(s)
                + <Attrs as Serialize>::spec_ser(a)),
        ) == Ok::<_, ProtocolError>((
            op,
            ((spec_ser_u32(id) + spec_ser_string(s) + <Attrs as Serialize>::spec_ser(a))
                + Seq::<u8>::empty()),
        )),
        spec_parse_id_str_attrs(
            (spec_ser_u32(id) + spec_ser_string(s) + <Attrs as Serialize>::spec_ser(a))
                + Seq::<u8>::empty(),
        ) == Ok::<_, ProtocolError>(((id, s, a), Seq::<u8>::empty())),
{
    let empty = Seq::<u8>::empty();
    let x = spec_ser_u8(op);
    let body = spec_ser_u32(id) + spec_ser_string(s) + <Attrs as Serialize>::spec_ser(a);
    assert((x + spec_ser_u32(id) + spec_ser_string(s) + <Attrs as Serialize>::spec_ser(a)) =~= x
        + body);
    lemma_add_empty(body);
    lemma_parse_ser_u8(op, body);
    lemma_rt_id_str_attrs(id, s, a, empty);
}

/// Helper: an id and two strings body parses back after the opcode.
proof fn lemma_rt_body_id_str2(op: u8, id: u32, x: Seq<char>, y: Seq<char>)
    requires
        string_len_ok(x),
        string_len_ok(y),
    ensures
        spec_parse_u8(
            (spec_ser_u8(op) + spec_ser_u32(id) + spec_ser_string(x) + spec_ser_string(y)),
        ) == Ok::<_, ProtocolError>((
            op,
            ((spec_ser_u32(id) + spec_ser_string(x) + spec_ser_string(y)) + Seq::<u8>::empty()),
        )),
        spec_parse_id_str2(
            (spec_ser_u32(id) + spec_ser_string(x) + spec_ser_string(y)) + Seq::<u8>::empty(),
        ) == Ok::<_, ProtocolError>(((id, x, y), Seq::<u8>::empty())),
{
    let empty = Seq::<u8>::empty();
    let o = spec_ser_u8(op);
    let body = spec_ser_u32(id) + spec_ser_string(x) + spec_ser_string(y);
    assert((o + spec_ser_u32(id) + spec_ser_string(x) + spec_ser_string(y)) =~= o + body);
    lemma_add_empty(body);
    lemma_parse_ser_u8(op, body);
    lemma_rt_id_str2(id, x, y, empty);
}

/// Parsing inverts serializing for every response variant, with nothing
/// left over.
#[verifier::rlimit(100)]
pub proof fn lemma_rt_server_packet(v: ServerPacketV)
    requires
        <SftpServerPacket as Serialize>::len_ok(v),
    ensures
        <SftpServerPacket as Deserialize>::spec_parse(<SftpServerPacket as Serialize>::spec_ser(v))
            == Ok::<_, ProtocolError>((v, Seq::<u8>::empty())),
{
    let empty = Seq::<u8>::empty();
    match v {
        ServerPacketV::Version { version, extensions } => {
            let a = spec_ser_u8(2);
            let b = spec_ser_u32(version);
            let c = spec_ser_elems::<Extension>(extensions);
            lemma_assoc(a, b, c);
            lemma_parse_ser_u8(2, b + c);
            lemma_parse_ser_u32(version, c);
            lemma_rt_eos_extensions(extensions);
        },
        ServerPacketV::Status { id, status_code, error_message, language_tag } => {
            let a = spec_ser_u8(101);
            let b = spec_ser_u32(id);
            let c = <StatusCode as Serialize>::spec_ser(status_code);
            let d = spec_ser_string(error_message);
            let e = spec_ser_string(language_tag);
            lemma_assoc((a + b) + c, d, e);
            lemma_assoc(a + b, c, d + e);
            lemma_assoc(a, b, c + (d + e));
            lemma_parse_ser_u8(101, b + (c + (d + e)));
            lemma_parse_ser_u32(id, c + (d + e));
            lemma_rt_status_code(status_code, d + e);
            lemma_parse_ser_string(error_message, e);
            lemma_add_empty(e);
            lemma_parse_ser_string(language_tag, empty);
        },
        ServerPacketV::Handle { id, handle } => {
            lemma_rt_body_id_str(102, id, handle);
        },
        ServerPacketV::Data { id, data } => {
            let a = spec_ser_u8(103);
            let b = spec_ser_u32(id);
            let c = spec_ser_bytes(data);
            lemma_assoc(a, b, c);
            lemma_parse_ser_u8(103, b + c);
            lemma_parse_ser_u32(id, c);
            lemma_add_empty(c);
            lemma_parse_ser_bytes(data, empty);
        },
        ServerPacketV::Name { id, names } => {
            let a = spec_ser_u8(104);
            let b = spec_ser_u32(id);
            let c = spec_ser_u32(names.len() as u32);
            let d = spec_ser_elems::<Name>(names);
            lemma_assoc(a + b, c, d);
            lemma_assoc(a, b, c + d);
            lemma_parse_ser_u8(104, b + (c + d));
            lemma_parse_ser_u32(id, c + d);
            lemma_parse_ser_u32(names.len() as u32, d);
            lemma_add_empty(d);
            lemma_rt_elems_name(names, empty);
        },
        ServerPacketV::Attrs { id, attrs } => {
            let a = spec_ser_u8(105);
            let b = spec_ser_u32(id);
            let c = <Attrs as Serialize>::spec_ser(attrs);
            lemma_assoc(a, b, c);
            lemma_parse_ser_u8(105, b + c);
            lemma_parse_ser_u32(id, c);
            lemma_add_empty(c);
            lemma_rt_attrs(attrs, empty);
        },
        ServerPacketV::ExtendedReply { id, data } => {
            let a = spec_ser_u8(201);
            let b = spec_ser_u32(id);
            let c = spec_ser_bytes(data);
            lemma_assoc(a, b, c);
            lemma_parse_ser_u8(201, b + c);
            lemma_parse_ser_u32(id, c);
            lemma_add_empty(c);
            lemma_parse_ser_bytes(data, empty);
        },
    }
}

/// A frame decodes back to the packet it was encoded from, even when more
/// bytes (the next frame) follow it: the frame's declared length, not the
/// buffer's end, bounds the parse.
proof fn lemma_frame_round_trip_general<T: Serialize + Deserialize>(v: T::V, extra: Seq<u8>)
    requires
        spec_frame_ok::<T>(v),
        T::spec_parse(T::spec_ser(v)) == Ok::<_, ProtocolError>((v, Seq::<u8>::empty())),
    ensures
        spec_frame_parse::<T>(spec_frame(T::spec_ser(v)) + extra) == Ok::<T::V, ProtocolError>(v),
{
    let payload = T::spec_ser(v);
    let n = payload.len() as u32;
    lemma_assoc(spec_ser_u32(n), payload, extra);
    lemma_parse_ser_u32(n, payload + extra);
    assert((payload + extra).take(n as int) =~= payload);
    assert((spec_frame(payload) + extra).len() >= 4);
}

/// Round trip for requests: decoding an encoded request, with or without
/// trailing bytes of a following frame, yields exactly the original packet.
pub proof fn lemma_client_round_trip(v: ClientPacketV, extra: Seq<u8>)
    requires
        spec_frame_ok::<SftpClientPacket>(v),
    ensures
        spec_frame_parse::<SftpClientPacket>(
            spec_frame(<SftpClientPacket as Serialize>::spec_ser(v)) + extra,
        ) == Ok::<ClientPacketV, ProtocolError>(v),
{
    lemma_rt_client_packet(v);
    lemma_frame_round_trip_general::<SftpClientPacket>(v, extra);
}

/// Round trip for responses: decoding an encoded response, with or without
/// trailing bytes of a following frame, yields exactly the original packet.
pub proof fn lemma_server_round_trip(v: ServerPacketV, extra: Seq<u8>)
    requires
        spec_frame_ok::<SftpServerPacket>(v),
    ensures
        spec_frame_parse::<SftpServerPacket>(
            spec_frame(<SftpServerPacket as Serialize>::spec_ser(v)) + extra,
        ) == Ok::<ServerPacketV, ProtocolError>(v),
{
    lemma_rt_server_packet(v);
    lemma_frame_round_trip_general::<SftpServerPacket>(v, extra);
}

impl SftpClientPacket {
    /// Decodes one request frame: length prefix, opcode, fields. Exactly
    /// [`spec_frame_parse`], errors included.
    pub fn from_bytes(data: &[u8]) -> (r: Result<SftpClientPacket, ProtocolError>)
        ensures
            match r {
                Ok(p) => spec_frame_parse::<SftpClientPacket>(data@) == Ok::<
                    ClientPacketV,
                    ProtocolError,
                >(p@),
                Err(e) => spec_frame_parse::<SftpClientPacket>(data@) == Err::<
                    ClientPacketV,
                    ProtocolError,
                >(e),
            },
    {
        frame_from_bytes(data)
    }

    /// Encodes this request as one frame; fails exactly when a field or the
    /// whole payload is too long for its 32-bit length prefix.
    pub fn to_bytes(&self) -> (r: Result<Vec<u8>, ProtocolError>)
        ensures
            match r {
                Ok(bytes) => spec_frame_ok::<SftpClientPacket>(self@) && bytes@ == spec_frame(
                    <SftpClientPacket as Serialize>::spec_ser(self@),
                ),
                Err(e) => !spec_frame_ok::<SftpClientPacket>(self@) && e
                    == ProtocolError::InvalidLength,
            },
    {
        frame_to_bytes(self)
    }
}

impl SftpServerPacket {
    /// Decodes one response frame.
    pub fn from_bytes(data: &[u8]) -> (r: Result<SftpServerPacket, ProtocolError>)
        ensures
            match r {
                Ok(p) => spec_frame_parse::<SftpServerPacket>(data@) == Ok::<
                    ServerPacketV,
                    ProtocolError,
                >(p@),
                Err(e) => spec_frame_parse::<SftpServerPacket>(data@) == Err::<
                    ServerPacketV,
                    ProtocolError,
                >(e),
            },
    {
        frame_from_bytes(data)
    }

    /// Encodes this response as one frame; fails exactly when a field or the
    /// whole payload is too long for its 32-bit length prefix.
    pub fn to_bytes(&self) -> (r: Result<Vec<u8>, ProtocolError>)
        ensures
            match r {
                Ok(bytes) => spec_frame_ok::<SftpServerPacket>(self@) && bytes@ == spec_frame(
                    <SftpServerPacket as Serialize>::spec_ser(self@),
                ),
                Err(e) => !spec_frame_ok::<SftpServerPacket>(self@) && e
                    == ProtocolError::InvalidLength,
            },
    {
        frame_to_bytes(self)
    }
}

/// Whether a decode failure poisons the framing. A length mismatch or a
/// truncated frame means no later frame boundary can be trusted, so the
/// connection must end rather than resynchronize; the other failures are
/// request-level and the connection stays usable.
pub fn framing_fatal(e: ProtocolError) -> (r: bool)
    ensures
        r <==> (e is IncompleteBuffer || e is InvalidLength),
{
    match e {
        ProtocolError::IncompleteBuffer => true,
        ProtocolError::InvalidLength => true,
        _ => false,
    }
}

} // verus!
