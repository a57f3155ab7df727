//! The request engine: routes one decoded request through a client's handle
//! table to the storage backend and builds the response packet.
//!
//! Contracts are stated over the session's table map and the packet views:
//! every response echoes the request's id, handle misses and wrong handle
//! kinds answer `BadMessage` without touching the backend, `Close` always
//! releases its handle, and `Open`/`Opendir` insert a handle that was not
//! in the table before — no two live handles of one client are equal.
//!
//! Locking is deliberately left to the caller: the original design holds one
//! exclusive lock per session for the whole of a request, serializing one
//! client's requests while leaving other clients independent. This crate
//! provides the state and the transition; an embedding provides the locks
//! or runs each session on one task.

use vstd::prelude::*;
use crate::handles::{
    ClientSession, FsHandle, alloc_key, assoc_map, distinct_keys, lemma_assoc_contains,
    lemma_assoc_index, lemma_assoc_remove, picked_key,
};
use crate::types::{
    Attrs, AttrsV, ClientPacketV, Extension, ExtensionV, ExtendedRequest, ExtendedRequestV,
    FsStats, Name, NameV, Pflags, ServerPacketV, SftpClientPacket, SftpServerPacket, StatusCode,
    VecEos, VecU8,
};
use crate::codec::Serialize;

verus! {

/// The failure taxonomy of a storage backend, as the engine maps it to wire
/// status codes.
#[derive(Copy, Clone, Debug, PartialEq, Eq, Structural)]
pub enum FsErrorKind {
    NotFound,
    Eof,
    PermissionDenied,
    Unsupported,
    InvalidInput,
    InvalidData,
    AlreadyExists,
    Other,
}

/// A backend failure: its kind, and the text carried to the client in the
/// `Status` response's message field.
#[derive(Clone, Debug, PartialEq, Eq)]
pub struct FsError {
    pub kind: FsErrorKind,
    pub message: String,
}

/// The status code each backend failure maps to.
pub open spec fn spec_status_of_kind(k: FsErrorKind) -> StatusCode {
    match k {
        FsErrorKind::NotFound => StatusCode::NoSuchFile,
        FsErrorKind::Eof => StatusCode::Eof,
        FsErrorKind::PermissionDenied => StatusCode::PermissionDenied,
        FsErrorKind::Unsupported => StatusCode::OpUnsupported,
        FsErrorKind::InvalidInput => StatusCode::BadMessage,
        FsErrorKind::InvalidData => StatusCode::BadMessage,
        FsErrorKind::AlreadyExists => StatusCode::Failure,
        FsErrorKind::Other => StatusCode::Failure,
    }
}

/// The storage-backend contract the engine is written against.
///
/// Required operations may fail with any [`FsError`]; the engine maps the
/// failure to a status code and never interprets the two resource types.
/// The optional operations are guarded by capability predicates defaulting
/// to unsupported; a backend that advertises one overrides both the
/// predicate and the operation.
pub trait Fs {
    type FileHandle;

    type DirHandle;

    fn open(&self, filename: String, pflags: Pflags, attrs: Attrs) -> Result<
        Self::FileHandle,
        FsError,
    >;

    fn close(&self, handle: FsHandle<Self::FileHandle, Self::DirHandle>) -> Result<(), FsError>;

    fn read(&self, handle: &mut Self::FileHandle, offset: u64, len: u32) -> Result<
        Vec<u8>,
        FsError,
    >;

    fn write(&self, handle: &mut Self::FileHandle, offset: u64, data: Vec<u8>) -> Result<
        (),
        FsError,
    >;

    fn lstat(&self, path: String) -> Result<Attrs, FsError>;

    fn fstat(&self, handle: &mut Self::FileHandle) -> Result<Attrs, FsError>;

    fn setstat(&self, path: String, attrs: Attrs) -> Result<(), FsError>;

    fn fsetstat(&self, handle: &mut Self::FileHandle, attrs: Attrs) -> Result<(), FsError>;

    fn opendir(&self, path: String) -> Result<Self::DirHandle, FsError>;

    fn readdir(&self, handle: &mut Self::DirHandle) -> Result<Vec<Name>, FsError>;

    fn remove(&self, filename: String) -> Result<(), FsError>;

    fn mkdir(&self, path: String, attrs: Attrs) -> Result<(), FsError>;

    fn rmdir(&self, path: String) -> Result<(), FsError>;

    fn realpath(&self, path: String) -> Result<String, FsError>;

    fn stat(&self, path: String) -> Result<Attrs, FsError>;

    fn rename(&self, oldpath: String, newpath: String) -> Result<(), FsError>;

    fn readlink(&self, path: String) -> Result<String, FsError>;

    fn symlink(&self, linkpath: String, targetpath: String) -> Result<(), FsError>;

    fn posix_rename_supported(&self) -> bool {
        false
    }

    fn posix_rename(&self, oldpath: String, newpath: String) -> Result<(), FsError> {
        Err(unsupported_error())
    }

    fn fsync_supported(&self) -> bool {
        false
    }

    fn fsync(&self, handle: &mut Self::FileHandle) -> Result<(), FsError> {
        Err(unsupported_error())
    }

    fn statvfs_supported(&self) -> bool {
        false
    }

    fn statvfs(&self, path: String) -> Result<FsStats, FsError> {
        Err(unsupported_error())
    }

    fn hardlink_supported(&self) -> bool {
        false
    }

    fn hardlink(&self, oldpath: String, newpath: String) -> Result<(), FsError> {
        Err(unsupported_error())
    }
}

/// The failure an unsupported optional operation reports: calling one is
/// never a silent no-op.
pub fn unsupported_error() -> (e: FsError)
    ensures
        e.kind == FsErrorKind::Unsupported,
        e.message@ == "unsupported"@,
{
    FsError { kind: FsErrorKind::Unsupported, message: "unsupported".to_owned() }
}

// ----------------------------------------------------------------------
// Response builders.

/// The message text of each status code.
pub open spec fn spec_status_name(c: StatusCode) -> Seq<char> {
    match c {
        StatusCode::Okay => "Ok"@,
        StatusCode::Eof => "Eof"@,
        StatusCode::NoSuchFile => "NoSuchFile"@,
        StatusCode::PermissionDenied => "PermissionDenied"@,
        StatusCode::Failure => "Failure"@,
        StatusCode::BadMessage => "BadMessage"@,
        StatusCode::NoConnection => "NoConnection"@,
        StatusCode::ConnectionLost => "ConnectionLost"@,
        StatusCode::OpUnsupported => "OpUnsupported"@,
    }
}

/// The `Status` response carrying a bare status code: its message is the
/// code's name and its language tag the fixed constant.
pub open spec fn spec_status_resp(id: u32, c: StatusCode) -> ServerPacketV {
    ServerPacketV::Status {
        id,
        status_code: c,
        error_message: spec_status_name(c),
        language_tag: "en"@,
    }
}

/// The `Status` response for a backend failure: the mapped code and the
/// backend's own message text.
pub open spec fn spec_error_resp(id: u32, kind: FsErrorKind, message: Seq<char>) -> ServerPacketV {
    ServerPacketV::Status {
        id,
        status_code: spec_status_of_kind(kind),
        error_message: message,
        language_tag: "en"@,
    }
}

/// Builds the `Status` response for a bare status code.
pub fn status_resp(id: u32, status_code: StatusCode) -> (r: SftpServerPacket)
    ensures
        r@ == spec_status_resp(id, status_code),
{
    let name: &str = match status_code {
        StatusCode::Okay => "Ok",
        StatusCode::Eof => "Eof",
        StatusCode::NoSuchFile => "NoSuchFile",
        StatusCode::PermissionDenied => "PermissionDenied",
        StatusCode::Failure => "Failure",
        StatusCode::BadMessage => "BadMessage",
        StatusCode::NoConnection => "NoConnection",
        StatusCode::ConnectionLost => "ConnectionLost",
        StatusCode::OpUnsupported => "OpUnsupported",
    };
    SftpServerPacket::Status {
        id,
        status_code,
        error_message: name.to_owned(),
        language_tag: "en".to_owned(),
    }
}

/// Builds the `Status` response for a backend failure.
pub fn error_resp(id: u32, err: FsError) -> (r: SftpServerPacket)
    ensures
        r@ == spec_error_resp(id, err.kind, err.message@),
{
    let status_code = match err.kind {
        FsErrorKind::NotFound => StatusCode::NoSuchFile,
        FsErrorKind::Eof => StatusCode::Eof,
        FsErrorKind::PermissionDenied => StatusCode::PermissionDenied,
        FsErrorKind::Unsupported => StatusCode::OpUnsupported,
        FsErrorKind::InvalidInput => StatusCode::BadMessage,
        FsErrorKind::InvalidData => StatusCode::BadMessage,
        FsErrorKind::AlreadyExists => StatusCode::Failure,
        FsErrorKind::Other => StatusCode::Failure,
    };
    SftpServerPacket::Status {
        id,
        status_code,
        error_message: err.message,
        language_tag: "en".to_owned(),
    }
}

/// Builds the response for an operation whose only success payload is
/// "done": `Status(Ok)` on success, the mapped failure otherwise.
pub fn result_resp<T>(id: u32, r: Result<T, FsError>) -> (resp: SftpServerPacket)
    ensures
        match r {
            Ok(_) => resp@ == spec_status_resp(id, StatusCode::Okay),
            Err(e) => resp@ == spec_error_resp(id, e.kind, e.message@),
        },
{
    match r {
        Ok(_) => status_resp(id, StatusCode::Okay),
        Err(e) => error_resp(id, e),
    }
}

/// Builds the response for a read: the backend's bytes, exactly, in a
/// `Data` response — a short read is a success — or the mapped failure.
pub fn data_resp(id: u32, r: Result<Vec<u8>, FsError>) -> (resp: SftpServerPacket)
    ensures
        match r {
            Ok(b) => resp@ == (ServerPacketV::Data { id, data: b@ }),
            Err(e) => resp@ == spec_error_resp(id, e.kind, e.message@),
        },
{
    match r {
        Ok(b) => SftpServerPacket::Data { id, data: VecU8(b) },
        Err(e) => error_resp(id, e),
    }
}

/// Builds the response for a stat: the backend's attributes, exactly, in an
/// `Attrs` response, or the mapped failure.
pub fn attrs_resp(id: u32, r: Result<Attrs, FsError>) -> (resp: SftpServerPacket)
    ensures
        match r {
            Ok(a) => resp@ == (ServerPacketV::Attrs { id, attrs: a@ }),
            Err(e) => resp@ == spec_error_resp(id, e.kind, e.message@),
        },
{
    match r {
        Ok(attrs) => SftpServerPacket::Attrs { id, attrs },
        Err(e) => error_resp(id, e),
    }
}

/// Builds the response for a readdir: the backend's entries, complete and
/// in order, in a `Name` response, or the mapped failure.
pub fn names_resp(id: u32, r: Result<Vec<Name>, FsError>) -> (resp: SftpServerPacket)
    ensures
        match r {
            Ok(ns) => resp@ == (ServerPacketV::Name {
                id,
                names: ns@.map_values(|n: Name| n@),
            }),
            Err(e) => resp@ == spec_error_resp(id, e.kind, e.message@),
        },
{
    match r {
        Ok(names) => SftpServerPacket::Name { id, names },
        Err(e) => error_resp(id, e),
    }
}

/// The one-entry `Name` response of `Realpath` and `Readlink`: the given
/// string as the filename, an empty longname, no attributes.
pub open spec fn spec_single_name(id: u32, filename: Seq<char>) -> ServerPacketV {
    ServerPacketV::Name {
        id,
        names: seq![
            NameV { filename, longname: Seq::<char>::empty(), attrs: spec_empty_attrs() },
        ],
    }
}

/// Builds the response for a realpath or readlink: the backend's string,
/// exactly, as the one entry's filename, or the mapped failure.
pub fn path_resp(id: u32, r: Result<String, FsError>) -> (resp: SftpServerPacket)
    ensures
        match r {
            Ok(s) => resp@ == spec_single_name(id, s@),
            Err(e) => resp@ == spec_error_resp(id, e.kind, e.message@),
        },
{
    match r {
        Ok(filename) => single_name_resp(id, filename),
        Err(e) => error_resp(id, e),
    }
}

/// Builds the response for a statvfs: the statistics' exact wire encoding
/// in an `ExtendedReply`, or the mapped failure.
pub fn statvfs_resp(id: u32, r: Result<FsStats, FsError>) -> (resp: SftpServerPacket)
    ensures
        match r {
            Ok(st) => resp@ == (ServerPacketV::ExtendedReply {
                id,
                data: <FsStats as Serialize>::spec_ser(st),
            }),
            Err(e) => resp@ == spec_error_resp(id, e.kind, e.message@),
        },
{
    match r {
        Ok(stats) => {
            let mut data: Vec<u8> = Vec::new();
            match stats.serialize(&mut data) {
                Ok(()) => SftpServerPacket::ExtendedReply { id, data: VecU8(data) },
                Err(e) => {
                    // Statistics are eleven fixed-width integers; their
                    // encoding cannot fail.
                    assert(false);
                    error_resp(id, FsError { kind: FsErrorKind::Other, message: String::new() })
                },
            }
        },
        Err(e) => error_resp(id, e),
    }
}

/// The overwrite gate of standard `Rename`: an existing destination fails
/// with the already-exists condition before the backend's rename can be
/// reached; a free destination passes. The POSIX-rename extension is exempt
/// and never consults this gate.
pub fn rename_gate(id: u32, destination_exists: bool) -> (r: Option<SftpServerPacket>)
    ensures
        destination_exists ==> (r matches Some(p) && p@ == spec_error_resp(
            id,
            FsErrorKind::AlreadyExists,
            "destination already exists"@,
        )),
        !destination_exists ==> r is None,
{
    if destination_exists {
        Some(
            error_resp(
                id,
                FsError {
                    kind: FsErrorKind::AlreadyExists,
                    message: "destination already exists".to_owned(),
                },
            ),
        )
    } else {
        None
    }
}

/// The extension list the handshake advertises for a given set of backend
/// capabilities, in fixed order with fixed payloads.
pub open spec fn spec_version_extensions(
    statvfs: bool,
    posix_rename: bool,
    fsync: bool,
    hardlink: bool,
) -> Seq<ExtensionV> {
    (if statvfs {
        seq![ExtensionV { name: "statvfs@openssh.com"@, data: "2"@ }]
    } else {
        Seq::empty()
    }) + (if posix_rename {
        seq![ExtensionV { name: "posix-rename@openssh.com"@, data: "1"@ }]
    } else {
        Seq::empty()
    }) + (if fsync {
        seq![ExtensionV { name: "fsync@openssh.com"@, data: "1"@ }]
    } else {
        Seq::empty()
    }) + (if hardlink {
        seq![ExtensionV { name: "hardlink@openssh.com"@, data: "1"@ }]
    } else {
        Seq::empty()
    })
}

/// Builds the `Version` response for a set of backend capabilities: version
/// is fixed at 3 and only supported extensions are advertised — in
/// particular, a backend without statvfs support never sees the statvfs
/// extension in the list.
pub fn version_response(statvfs: bool, posix_rename: bool, fsync: bool, hardlink: bool) -> (r:
    SftpServerPacket)
    ensures
        r@ == (ServerPacketV::Version {
            version: 3,
            extensions: spec_version_extensions(statvfs, posix_rename, fsync, hardlink),
        }),
        !statvfs ==> forall|i: int|
            0 <= i < spec_version_extensions(statvfs, posix_rename, fsync, hardlink).len()
                ==> (#[trigger] spec_version_extensions(statvfs, posix_rename, fsync, hardlink)[i]).name
                != "statvfs@openssh.com"@,
{
    let ghost e1 = if statvfs {
        seq![ExtensionV { name: "statvfs@openssh.com"@, data: "2"@ }]
    } else {
        Seq::<ExtensionV>::empty()
    };
    let ghost e2 = if posix_rename {
        seq![ExtensionV { name: "posix-rename@openssh.com"@, data: "1"@ }]
    } else {
        Seq::<ExtensionV>::empty()
    };
    let ghost e3 = if fsync {
        seq![ExtensionV { name: "fsync@openssh.com"@, data: "1"@ }]
    } else {
        Seq::<ExtensionV>::empty()
    };
    let ghost e4 = if hardlink {
        seq![ExtensionV { name: "hardlink@openssh.com"@, data: "1"@ }]
    } else {
        Seq::<ExtensionV>::empty()
    };
    let mut extensions: Vec<Extension> = Vec::new();
    if statvfs {
        extensions.push(
            Extension { name: "statvfs@openssh.com".to_owned(), data: "2".to_owned() },
        );
    }
    proof {
        assert(extensions@.map_values(|t: Extension| t@) =~= e1);
    }
    if posix_rename {
        extensions.push(
            Extension { name: "posix-rename@openssh.com".to_owned(), data: "1".to_owned() },
        );
    }
    proof {
        assert(extensions@.map_values(|t: Extension| t@) =~= e1 + e2);
    }
    if fsync {
        extensions.push(Extension { name: "fsync@openssh.com".to_owned(), data: "1".to_owned() });
    }
    proof {
        assert(extensions@.map_values(|t: Extension| t@) =~= e1 + e2 + e3);
    }
    if hardlink {
        extensions.push(
            Extension { name: "hardlink@openssh.com".to_owned(), data: "1".to_owned() },
        );
    }
    proof {
        assert(extensions@.map_values(|t: Extension| t@) =~= e1 + e2 + e3 + e4);
        if !statvfs {
            reveal_strlit("statvfs@openssh.com");
            reveal_strlit("posix-rename@openssh.com");
            reveal_strlit("fsync@openssh.com");
            reveal_strlit("hardlink@openssh.com");
            assert("statvfs@openssh.com"@.len() == 19);
            assert("posix-rename@openssh.com"@.len() == 24);
            assert("fsync@openssh.com"@.len() == 17);
            assert("hardlink@openssh.com"@.len() == 20);
        }
    }
    SftpServerPacket::Version { version: 3, extensions: VecEos(extensions) }
}

// ----------------------------------------------------------------------
// The request engine.

/// The id a request carries; `Init` alone carries none.
pub open spec fn request_id(req: ClientPacketV) -> Option<u32> {
    match req {
        ClientPacketV::Init { .. } => None,
        ClientPacketV::Open { id, .. } => Some(id),
        ClientPacketV::Close { id, .. } => Some(id),
        ClientPacketV::Read { id, .. } => Some(id),
        ClientPacketV::Write { id, .. } => Some(id),
        ClientPacketV::Lstat { id, .. } => Some(id),
        ClientPacketV::Fstat { id, .. } => Some(id),
        ClientPacketV::Setstat { id, .. } => Some(id),
        ClientPacketV::Fsetstat { id, .. } => Some(id),
        ClientPacketV::Opendir { id, .. } => Some(id),
        ClientPacketV::Readdir { id, .. } => Some(id),
        ClientPacketV::Remove { id, .. } => Some(id),
        ClientPacketV::Mkdir { id, .. } => Some(id),
        ClientPacketV::Rmdir { id, .. } => Some(id),
        ClientPacketV::Realpath { id, .. } => Some(id),
        ClientPacketV::Stat { id, .. } => Some(id),
        ClientPacketV::Rename { id, .. } => Some(id),
        ClientPacketV::Readlink { id, .. } => Some(id),
        ClientPacketV::Symlink { id, .. } => Some(id),
        ClientPacketV::Extended { id, .. } => Some(id),
    }
}

/// The id a response carries; `Version` alone carries none.
pub open spec fn response_id(resp: ServerPacketV) -> Option<u32> {
    match resp {
        ServerPacketV::Version { .. } => None,
        ServerPacketV::Status { id, .. } => Some(id),
        ServerPacketV::Handle { id, .. } => Some(id),
        ServerPacketV::Data { id, .. } => Some(id),
        ServerPacketV::Name { id, .. } => Some(id),
        ServerPacketV::Attrs { id, .. } => Some(id),
        ServerPacketV::ExtendedReply { id, .. } => Some(id),
    }
}

/// A `Status` response to request `id`, of any code.
pub open spec fn is_status(resp: ServerPacketV, id: u32) -> bool {
    &&& resp is Status
    &&& resp->Status_id == id
}

/// A `Status` response to request `id` carrying a failure code.
pub open spec fn is_error_status(resp: ServerPacketV, id: u32) -> bool {
    &&& is_status(resp, id)
    &&& resp->Status_status_code != StatusCode::Okay
}

/// The table changed at most in the resource behind `k`, which stays a
/// file: what a read, write or fstat does to it.
pub open spec fn file_refreshed<F, D>(
    pre: Map<Seq<char>, FsHandle<F, D>>,
    post: Map<Seq<char>, FsHandle<F, D>>,
    k: Seq<char>,
) -> bool {
    exists|f: F| post == #[trigger] pre.insert(k, FsHandle::<F, D>::File(f))
}

/// As [`file_refreshed`], for directories.
pub open spec fn dir_refreshed<F, D>(
    pre: Map<Seq<char>, FsHandle<F, D>>,
    post: Map<Seq<char>, FsHandle<F, D>>,
    k: Seq<char>,
) -> bool {
    exists|d: D| post == #[trigger] pre.insert(k, FsHandle::<F, D>::Dir(d))
}

/// An `Attrs` value with every field absent.
pub open spec fn spec_empty_attrs() -> AttrsV {
    AttrsV {
        size: None,
        uid_gid: None,
        permissions: None,
        atime_mtime: None,
        extended_attrs: Seq::empty(),
    }
}

/// A `Name` response to request `id` with exactly one entry whose longname
/// is empty and whose attributes are all absent: the shape `Realpath` and
/// `Readlink` answer with.
pub open spec fn is_single_name(resp: ServerPacketV, id: u32) -> bool {
    &&& resp is Name
    &&& resp->Name_id == id
    &&& resp->Name_names.len() == 1
    &&& resp->Name_names[0].longname == Seq::<char>::empty()
    &&& resp->Name_names[0].attrs == spec_empty_attrs()
}

/// What processing one request does: how the response relates to the
/// request and how the handle table after relates to the table before.
///
/// A handle miss or a wrong handle kind answers `Status(BadMessage)` without
/// reaching the backend and leaves the table unchanged. `Close` removes its
/// handle from the table whether or not the backend close succeeded.
/// `Open` and `Opendir` succeed only with the handle the allocation policy
/// picks — the requested path with the smallest decimal suffix not yet a
/// live handle, see [`picked_key`] — mapped in the table afterwards.
/// Requests without handles leave the table unchanged. Where the backend
/// decides the outcome, both outcomes are covered: the matching success
/// response, or a `Status` carrying the failure's mapped code.
pub open spec fn process_post<F, D>(
    pre: Map<Seq<char>, FsHandle<F, D>>,
    post: Map<Seq<char>, FsHandle<F, D>>,
    req: ClientPacketV,
    resp: ServerPacketV,
) -> bool {
    match req {
        ClientPacketV::Init { .. } => post == pre && resp matches ServerPacketV::Version {
            version: 3,
            ..
        },
        ClientPacketV::Open { id, filename, .. } => (resp matches ServerPacketV::Handle {
            id: i,
            handle,
        } && i == id && picked_key(pre, filename, handle) && (exists|f: F|
            post == #[trigger] pre.insert(handle, FsHandle::<F, D>::File(f)))) || (
        is_error_status(resp, id) && post == pre),
        ClientPacketV::Opendir { id, path } => (resp matches ServerPacketV::Handle {
            id: i,
            handle,
        } && i == id && picked_key(pre, path, handle) && (exists|d: D|
            post == #[trigger] pre.insert(handle, FsHandle::<F, D>::Dir(d)))) || (is_error_status(
            resp,
            id,
        ) && post == pre),
        ClientPacketV::Close { id, handle } => {
            if pre.contains_key(handle) {
                post == pre.remove(handle) && is_status(resp, id)
            } else {
                post == pre && resp == spec_status_resp(id, StatusCode::BadMessage)
            }
        },
        ClientPacketV::Read { id, handle, .. } => {
            if pre.contains_key(handle) && pre[handle] is File {
                ((resp matches ServerPacketV::Data { id: i, .. } && i == id) || is_error_status(
                    resp,
                    id,
                )) && file_refreshed(pre, post, handle)
            } else {
                post == pre && resp == spec_status_resp(id, StatusCode::BadMessage)
            }
        },
        ClientPacketV::Write { id, handle, .. } => {
            if pre.contains_key(handle) && pre[handle] is File {
                is_status(resp, id) && file_refreshed(pre, post, handle)
            } else {
                post == pre && resp == spec_status_resp(id, StatusCode::BadMessage)
            }
        },
        ClientPacketV::Lstat { id, .. } => post == pre && ((resp matches ServerPacketV::Attrs {
            id: i,
            ..
        } && i == id) || is_error_status(resp, id)),
        ClientPacketV::Fstat { id, handle } => {
            if pre.contains_key(handle) && pre[handle] is File {
                ((resp matches ServerPacketV::Attrs { id: i, .. } && i == id) || is_error_status(
                    resp,
                    id,
                )) && file_refreshed(pre, post, handle)
            } else {
                post == pre && resp == spec_status_resp(id, StatusCode::BadMessage)
            }
        },
        ClientPacketV::Setstat { id, .. } => post == pre && is_status(resp, id),
        ClientPacketV::Fsetstat { id, handle, .. } => {
            if pre.contains_key(handle) && pre[handle] is File {
                is_status(resp, id) && file_refreshed(pre, post, handle)
            } else {
                post == pre && resp == spec_status_resp(id, StatusCode::BadMessage)
            }
        },
        ClientPacketV::Readdir { id, handle } => {
            if pre.contains_key(handle) && pre[handle] is Dir {
                ((resp matches ServerPacketV::Name { id: i, .. } && i == id) || is_error_status(
                    resp,
                    id,
                )) && dir_refreshed(pre, post, handle)
            } else {
                post == pre && resp == spec_status_resp(id, StatusCode::BadMessage)
            }
        },
        ClientPacketV::Remove { id, .. } => post == pre && is_status(resp, id),
        ClientPacketV::Mkdir { id, .. } => post == pre && is_status(resp, id),
        ClientPacketV::Rmdir { id, .. } => post == pre && is_status(resp, id),
        ClientPacketV::Realpath { id, .. } => post == pre && (is_single_name(resp, id)
            || is_error_status(resp, id)),
        ClientPacketV::Stat { id, .. } => post == pre && ((resp matches ServerPacketV::Attrs {
            id: i,
            ..
        } && i == id) || is_error_status(resp, id)),
        ClientPacketV::Rename { id, .. } => post == pre && is_status(resp, id),
        ClientPacketV::Readlink { id, .. } => post == pre && (is_single_name(resp, id)
            || is_error_status(resp, id)),
        ClientPacketV::Symlink { id, .. } => post == pre && is_status(resp, id),
        ClientPacketV::Extended { id, extended_request } => match extended_request {
            ExtendedRequestV::OpensshStatvfs { .. } => post == pre && ((
            resp matches ServerPacketV::ExtendedReply { id: i, .. } && i == id) || is_error_status(
                resp,
                id,
            )),
            ExtendedRequestV::OpensshPosixRename { .. } => post == pre && is_status(resp, id),
            ExtendedRequestV::OpensshHardlink { .. } => post == pre && is_status(resp, id),
            ExtendedRequestV::OpensshFsync { handle } => {
                if pre.contains_key(handle) && pre[handle] is File {
                    is_status(resp, id) && file_refreshed(pre, post, handle)
                } else {
                    post == pre && resp == spec_status_resp(id, StatusCode::BadMessage)
                }
            },
        },
    }
}

/// `Open`: allocate a fresh handle, open through the backend, insert on
/// success.
fn do_open<T: Fs>(
    fs: &T,
    session: &mut ClientSession<T::FileHandle, T::DirHandle>,
    id: u32,
    filename: String,
    pflags: Pflags,
    attrs: Attrs,
) -> (resp: SftpServerPacket)
    requires
        old(session).wf(),
    ensures
        final(session).wf(),
        (resp@ matches ServerPacketV::Handle { id: i, handle } && i == id && picked_key(
            old(session).table(),
            filename@,
            handle,
        ) && (exists|f: T::FileHandle|
            final(session).table() == #[trigger] old(session).table().insert(
                handle,
                FsHandle::<T::FileHandle, T::DirHandle>::File(f),
            ))) || (is_error_status(resp@, id) && final(session).table() == old(session).table()),
        response_id(resp@) == Some(id),
{
    let handle = session.alloc_handle(&filename);
    match fs.open(filename, pflags, attrs) {
        Ok(file) => {
            let resp = SftpServerPacket::Handle { id, handle: handle.clone() };
            session.insert(handle, FsHandle::File(file));
            resp
        },
        Err(e) => error_resp(id, e),
    }
}

/// `Opendir`: as `do_open`, for directories.
fn do_opendir<T: Fs>(
    fs: &T,
    session: &mut ClientSession<T::FileHandle, T::DirHandle>,
    id: u32,
    path: String,
) -> (resp: SftpServerPacket)
    requires
        old(session).wf(),
    ensures
        final(session).wf(),
        (resp@ matches ServerPacketV::Handle { id: i, handle } && i == id && picked_key(
            old(session).table(),
            path@,
            handle,
        ) && (exists|d: T::DirHandle|
            final(session).table() == #[trigger] old(session).table().insert(
                handle,
                FsHandle::<T::FileHandle, T::DirHandle>::Dir(d),
            ))) || (is_error_status(resp@, id) && final(session).table() == old(session).table()),
        response_id(resp@) == Some(id),
{
    let handle = session.alloc_handle(&path);
    match fs.opendir(path) {
        Ok(dir) => {
            let resp = SftpServerPacket::Handle { id, handle: handle.clone() };
            session.insert(handle, FsHandle::Dir(dir));
            resp
        },
        Err(e) => error_resp(id, e),
    }
}

/// `Close`: release the handle unconditionally, then let the backend close
/// the resource; the table entry is the authoritative ownership record, so
/// a failed backend close still leaves the handle gone.
fn do_close<T: Fs>(
    fs: &T,
    session: &mut ClientSession<T::FileHandle, T::DirHandle>,
    id: u32,
    handle: String,
) -> (resp: SftpServerPacket)
    requires
        old(session).wf(),
    ensures
        final(session).wf(),
        ({
            let pre = old(session).table();
            let post = final(session).table();
            if pre.contains_key(handle@) {
                post == pre.remove(handle@) && is_status(resp@, id)
            } else {
                post == pre && resp@ == spec_status_resp(id, StatusCode::BadMessage)
            }
        }),
        response_id(resp@) == Some(id),
{
    match session.remove(&handle) {
        Some(fs_handle) => result_resp(id, fs.close(fs_handle)),
        None => status_resp(id, StatusCode::BadMessage),
    }
}

/// The shared postcondition of the file-handle operations: the right
/// response shape on a file handle, `BadMessage` on a miss or a directory.
pub open spec fn file_op_post<F, D>(
    pre: Map<Seq<char>, FsHandle<F, D>>,
    post: Map<Seq<char>, FsHandle<F, D>>,
    handle: Seq<char>,
    id: u32,
    resp: ServerPacketV,
    ok_shape: bool,
) -> bool {
    if pre.contains_key(handle) && pre[handle] is File {
        (ok_shape || is_error_status(resp, id)) && file_refreshed(pre, post, handle)
    } else {
        post == pre && resp == spec_status_resp(id, StatusCode::BadMessage)
    }
}

/// `Read`: a short read is not an error; the backend's end-of-data failure
/// maps to `Status(Eof)`.
fn do_read<T: Fs>(
    fs: &T,
    session: &mut ClientSession<T::FileHandle, T::DirHandle>,
    id: u32,
    handle: String,
    offset: u64,
    len: u32,
) -> (resp: SftpServerPacket)
    requires
        old(session).wf(),
    ensures
        final(session).wf(),
        file_op_post(
            old(session).table(),
            final(session).table(),
            handle@,
            id,
            resp@,
            resp@ matches ServerPacketV::Data { id: i, .. } && i == id,
        ),
        response_id(resp@) == Some(id),
{
    let ghost pre = session.table();
    match session.remove(&handle) {
        Some(FsHandle::File(mut file)) => {
            let ghost hv = handle@;
            let res = fs.read(&mut file, offset, len);
            let ghost fsnap = file;
            session.insert(handle, FsHandle::File(file));
            proof {
                assert(session.table() =~= pre.insert(
                    hv,
                    FsHandle::<T::FileHandle, T::DirHandle>::File(fsnap),
                ));
            }
            data_resp(id, res)
        },
        Some(other) => {
            session.insert(handle, other);
            proof {
                assert(session.table() =~= pre);
            }
            status_resp(id, StatusCode::BadMessage)
        },
        None => status_resp(id, StatusCode::BadMessage),
    }
}

/// `Write`.
fn do_write<T: Fs>(
    fs: &T,
    session: &mut ClientSession<T::FileHandle, T::DirHandle>,
    id: u32,
    handle: String,
    offset: u64,
    data: Vec<u8>,
) -> (resp: SftpServerPacket)
    requires
        old(session).wf(),
    ensures
        final(session).wf(),
        file_op_post(
            old(session).table(),
            final(session).table(),
            handle@,
            id,
            resp@,
            is_status(resp@, id),
        ),
        response_id(resp@) == Some(id),
{
    let ghost pre = session.table();
    match session.remove(&handle) {
        Some(FsHandle::File(mut file)) => {
            let ghost hv = handle@;
            let res = fs.write(&mut file, offset, data);
            let ghost fsnap = file;
            session.insert(handle, FsHandle::File(file));
            proof {
                assert(session.table() =~= pre.insert(
                    hv,
                    FsHandle::<T::FileHandle, T::DirHandle>::File(fsnap),
                ));
            }
            result_resp(id, res)
        },
        Some(other) => {
            session.insert(handle, other);
            proof {
                assert(session.table() =~= pre);
            }
            status_resp(id, StatusCode::BadMessage)
        },
        None => status_resp(id, StatusCode::BadMessage),
    }
}

/// `Fstat`.
fn do_fstat<T: Fs>(
    fs: &T,
    session: &mut ClientSession<T::FileHandle, T::DirHandle>,
    id: u32,
    handle: String,
) -> (resp: SftpServerPacket)
    requires
        old(session).wf(),
    ensures
        final(session).wf(),
        file_op_post(
            old(session).table(),
            final(session).table(),
            handle@,
            id,
            resp@,
            resp@ matches ServerPacketV::Attrs { id: i, .. } && i == id,
        ),
        response_id(resp@) == Some(id),
{
    let ghost pre = session.table();
    match session.remove(&handle) {
        Some(FsHandle::File(mut file)) => {
            let ghost hv = handle@;
            let res = fs.fstat(&mut file);
            let ghost fsnap = file;
            session.insert(handle, FsHandle::File(file));
            proof {
                assert(session.table() =~= pre.insert(
                    hv,
                    FsHandle::<T::FileHandle, T::DirHandle>::File(fsnap),
                ));
            }
            attrs_resp(id, res)
        },
        Some(other) => {
            session.insert(handle, other);
            proof {
                assert(session.table() =~= pre);
            }
            status_resp(id, StatusCode::BadMessage)
        },
        None => status_resp(id, StatusCode::BadMessage),
    }
}

/// `Fsetstat`.
fn do_fsetstat<T: Fs>(
    fs: &T,
    session: &mut ClientSession<T::FileHandle, T::DirHandle>,
    id: u32,
    handle: String,
    attrs: Attrs,
) -> (resp: SftpServerPacket)
    requires
        old(session).wf(),
    ensures
        final(session).wf(),
        file_op_post(
            old(session).table(),
            final(session).table(),
            handle@,
            id,
            resp@,
            is_status(resp@, id),
        ),
        response_id(resp@) == Some(id),
{
    let ghost pre = session.table();
    match session.remove(&handle) {
        Some(FsHandle::File(mut file)) => {
            let ghost hv = handle@;
            let res = fs.fsetstat(&mut file, attrs);
            let ghost fsnap = file;
            session.insert(handle, FsHandle::File(file));
            proof {
                assert(session.table() =~= pre.insert(
                    hv,
                    FsHandle::<T::FileHandle, T::DirHandle>::File(fsnap),
                ));
            }
            result_resp(id, res)
        },
        Some(other) => {
            session.insert(handle, other);
            proof {
                assert(session.table() =~= pre);
            }
            status_resp(id, StatusCode::BadMessage)
        },
        None => status_resp(id, StatusCode::BadMessage),
    }
}

/// `fsync@openssh.com`.
fn do_fsync<T: Fs>(
    fs: &T,
    session: &mut ClientSession<T::FileHandle, T::DirHandle>,
    id: u32,
    handle: String,
) -> (resp: SftpServerPacket)
    requires
        old(session).wf(),
    ensures
        final(session).wf(),
        file_op_post(
            old(session).table(),
            final(session).table(),
            handle@,
            id,
            resp@,
            is_status(resp@, id),
        ),
        response_id(resp@) == Some(id),
{
    let ghost pre = session.table();
    match session.remove(&handle) {
        Some(FsHandle::File(mut file)) => {
            let ghost hv = handle@;
            let res = fs.fsync(&mut file);
            let ghost fsnap = file;
            session.insert(handle, FsHandle::File(file));
            proof {
                assert(session.table() =~= pre.insert(
                    hv,
                    FsHandle::<T::FileHandle, T::DirHandle>::File(fsnap),
                ));
            }
            result_resp(id, res)
        },
        Some(other) => {
            session.insert(handle, other);
            proof {
                assert(session.table() =~= pre);
            }
            status_resp(id, StatusCode::BadMessage)
        },
        None => status_resp(id, StatusCode::BadMessage),
    }
}

/// `Readdir`.
fn do_readdir<T: Fs>(
    fs: &T,
    session: &mut ClientSession<T::FileHandle, T::DirHandle>,
    id: u32,
    handle: String,
) -> (resp: SftpServerPacket)
    requires
        old(session).wf(),
    ensures
        final(session).wf(),
        ({
            let pre = old(session).table();
            let post = final(session).table();
            if pre.contains_key(handle@) && pre[handle@] is Dir {
                ((resp@ matches ServerPacketV::Name { id: i, .. } && i == id) || is_error_status(
                    resp@,
                    id,
                )) && dir_refreshed(pre, post, handle@)
            } else {
                post == pre && resp@ == spec_status_resp(id, StatusCode::BadMessage)
            }
        }),
        response_id(resp@) == Some(id),
{
    let ghost pre = session.table();
    match session.remove(&handle) {
        Some(FsHandle::Dir(mut dir)) => {
            let ghost hv = handle@;
            let res = fs.readdir(&mut dir);
            let ghost dsnap = dir;
            session.insert(handle, FsHandle::Dir(dir));
            proof {
                assert(session.table() =~= pre.insert(
                    hv,
                    FsHandle::<T::FileHandle, T::DirHandle>::Dir(dsnap),
                ));
            }
            names_resp(id, res)
        },
        Some(other) => {
            session.insert(handle, other);
            proof {
                assert(session.table() =~= pre);
            }
            status_resp(id, StatusCode::BadMessage)
        },
        None => status_resp(id, StatusCode::BadMessage),
    }
}

/// Routes one decoded request: resolves handle arguments against this
/// session's table, calls the backend, and builds exactly one response.
///
/// The engine checks, before the backend is reached, that a presented
/// handle exists and has the right kind; standard `Rename` refuses to
/// overwrite an existing destination, while the POSIX-rename extension
/// delegates overwrite semantics to the backend unchecked.
#[verifier::rlimit(100)]
pub fn process<T: Fs>(
    fs: &T,
    session: &mut ClientSession<T::FileHandle, T::DirHandle>,
    packet: SftpClientPacket,
) -> (resp: SftpServerPacket)
    requires
        old(session).wf(),
    ensures
        final(session).wf(),
        process_post(old(session).table(), final(session).table(), packet@, resp@),
        match request_id(packet@) {
            Some(i) => response_id(resp@) == Some(i),
            None => resp@ is Version,
        },
{
    match packet {
        SftpClientPacket::Init { .. } => {
            let statvfs = fs.statvfs_supported();
            let posix_rename = fs.posix_rename_supported();
            let fsync = fs.fsync_supported();
            let hardlink = fs.hardlink_supported();
            version_response(statvfs, posix_rename, fsync, hardlink)
        },
        SftpClientPacket::Open { id, filename, pflags, attrs } => do_open(
            fs,
            session,
            id,
            filename,
            pflags,
            attrs,
        ),
        SftpClientPacket::Opendir { id, path } => do_opendir(fs, session, id, path),
        SftpClientPacket::Close { id, handle } => do_close(fs, session, id, handle),
        SftpClientPacket::Read { id, handle, offset, len } => do_read(
            fs,
            session,
            id,
            handle,
            offset,
            len,
        ),
        SftpClientPacket::Write { id, handle, offset, data } => do_write(
            fs,
            session,
            id,
            handle,
            offset,
            data.0,
        ),
        SftpClientPacket::Lstat { id, path } => attrs_resp(id, fs.lstat(path)),
        SftpClientPacket::Fstat { id, handle } => do_fstat(fs, session, id, handle),
        SftpClientPacket::Setstat { id, path, attrs } => result_resp(id, fs.setstat(path, attrs)),
        SftpClientPacket::Fsetstat { id, handle, attrs } => do_fsetstat(
            fs,
            session,
            id,
            handle,
            attrs,
        ),
        SftpClientPacket::Readdir { id, handle } => do_readdir(fs, session, id, handle),
        SftpClientPacket::Remove { id, filename } => result_resp(id, fs.remove(filename)),
        SftpClientPacket::Mkdir { id, path, attrs } => result_resp(id, fs.mkdir(path, attrs)),
        SftpClientPacket::Rmdir { id, path } => result_resp(id, fs.rmdir(path)),
        SftpClientPacket::Realpath { id, path } => path_resp(id, fs.realpath(path)),
        SftpClientPacket::Stat { id, path } => attrs_resp(id, fs.stat(path)),
        SftpClientPacket::Rename { id, oldpath, newpath } => {
            // Standard rename must not overwrite: an existing destination
            // is refused before the backend's rename can be reached.
            let destination_exists = fs.stat(newpath.clone()).is_ok();
            match rename_gate(id, destination_exists) {
                Some(resp) => resp,
                None => result_resp(id, fs.rename(oldpath, newpath)),
            }
        },
        SftpClientPacket::Readlink { id, path } => path_resp(id, fs.readlink(path)),
        SftpClientPacket::Symlink { id, linkpath, targetpath } => result_resp(
            id,
            fs.symlink(linkpath, targetpath),
        ),
        SftpClientPacket::Extended { id, extended_request } => {
            match extended_request {
                ExtendedRequest::OpensshStatvfs { path } => statvfs_resp(id, fs.statvfs(path)),
                ExtendedRequest::OpensshPosixRename { oldpath, newpath } => result_resp(
                    id,
                    fs.posix_rename(oldpath, newpath),
                ),
                ExtendedRequest::OpensshHardlink { oldpath, newpath } => result_resp(
                    id,
                    fs.hardlink(oldpath, newpath),
                ),
                ExtendedRequest::OpensshFsync { handle } => do_fsync(fs, session, id, handle),
            }
        },
    }
}

// ----------------------------------------------------------------------
// The session registry.

/// The session registry: the shared storage backend and one
/// [`ClientSession`] per connected client, keyed by a registry-chosen
/// session-handle string. The backend is shared, read-only state from the
/// engine's point of view; all mutation happens inside backend calls.
pub struct SftpServer<T: Fs> {
    fs: T,
    clients: Vec<(String, ClientSession<T::FileHandle, T::DirHandle>)>,
}

impl<T: Fs> SftpServer<T> {
    /// The map from session-handle strings to sessions.
    pub closed spec fn clients_map(&self) -> Map<
        Seq<char>,
        ClientSession<T::FileHandle, T::DirHandle>,
    > {
        assoc_map(self.clients@)
    }

    /// Session-handle strings are distinct and every session's handle table
    /// is well formed.
    pub closed spec fn wf(&self) -> bool {
        &&& distinct_keys(self.clients@)
        &&& forall|i: int| 0 <= i < self.clients@.len() ==> (#[trigger] self.clients@[i]).1.wf()
    }

    /// Whether a session is registered under this handle.
    pub open spec fn spec_has_client(&self, k: Seq<char>) -> bool {
        self.clients_map().contains_key(k)
    }

    /// A registry around a backend, with no clients yet.
    pub fn new(fs: T) -> (s: Self)
        ensures
            s.wf(),
            s.clients_map() == Map::<
                Seq<char>,
                ClientSession<T::FileHandle, T::DirHandle>,
            >::empty(),
    {
        SftpServer { fs, clients: Vec::new() }
    }

    /// Whether a session is registered under this handle.
    pub fn has_client(&self, h: &String) -> (r: bool)
        ensures
            r == self.spec_has_client(h@),
    {
        let mut i: usize = 0;
        while i < self.clients.len()
            invariant
                i <= self.clients@.len(),
                forall|j: int| 0 <= j < i ==> (#[trigger] self.clients@[j]).0@ != h@,
            decreases self.clients@.len() - i,
        {
            if self.clients[i].0.eq(h) {
                proof {
                    lemma_assoc_contains(self.clients@, h@);
                }
                return true;
            }
            i = i + 1;
        }
        proof {
            lemma_assoc_contains(self.clients@, h@);
        }
        false
    }

    /// Registers a fresh session at connection setup and returns its
    /// handle: the given prefix with the smallest decimal suffix not yet a
    /// registered session handle. The new session is registered under that
    /// handle, starts with no open handles, and no existing session is
    /// touched.
    pub fn create_client_handle(&mut self, start_str: &String) -> (h: String)
        requires
            old(self).wf(),
        ensures
            final(self).wf(),
            picked_key(old(self).clients_map(), start_str@, h@),
            final(self).clients_map() == old(self).clients_map().insert(
                h@,
                final(self).clients_map()[h@],
            ),
            final(self).clients_map()[h@].wf(),
            final(self).clients_map()[h@].table() == Map::<
                Seq<char>,
                FsHandle<T::FileHandle, T::DirHandle>,
            >::empty(),
    {
        let h = alloc_key(&self.clients, start_str);
        let ghost pre = self.clients@;
        proof {
            lemma_assoc_contains(pre, h@);
        }
        self.clients.push((h.clone(), ClientSession::new()));
        proof {
            assert(self.clients@.drop_last() =~= pre);
            assert(forall|i: int| 0 <= i < pre.len() ==> (#[trigger] self.clients@[i]) == pre[i]);
            lemma_assoc_index(self.clients@, pre.len() as int);
        }
        h
    }

    /// Routes one request through the named client's session: the session
    /// registered under `client_handle` makes the [`process_post`] step,
    /// every other session and the set of session handles are untouched,
    /// and the response echoes the request's id (`Init` alone answers
    /// `Version`).
    pub fn process(&mut self, client_handle: &String, packet: SftpClientPacket) -> (resp:
        SftpServerPacket)
        requires
            old(self).wf(),
            old(self).spec_has_client(client_handle@),
        ensures
            final(self).wf(),
            final(self).spec_has_client(client_handle@),
            final(self).clients_map() == old(self).clients_map().insert(
                client_handle@,
                final(self).clients_map()[client_handle@],
            ),
            process_post(
                old(self).clients_map()[client_handle@].table(),
                final(self).clients_map()[client_handle@].table(),
                packet@,
                resp@,
            ),
            match request_id(packet@) {
                Some(i) => response_id(resp@) == Some(i),
                None => resp@ is Version,
            },
    {
        let ghost pre = self.clients@;
        let ghost m = self.clients_map();
        let mut i: usize = 0;
        while i < self.clients.len()
            invariant
                *self == *old(self),
                old(self).wf(),
                old(self).spec_has_client(client_handle@),
                m == self.clients_map(),
                i <= self.clients@.len(),
                forall|j: int| 0 <= j < i ==> (#[trigger] self.clients@[j]).0@ != client_handle@,
            decreases self.clients@.len() - i,
        {
            if self.clients[i].0.eq(client_handle) {
                let ghost at_entry = self.clients@;
                proof {
                    lemma_assoc_index(at_entry, i as int);
                    lemma_assoc_remove(at_entry, i as int);
                }
                let (key, mut session) = self.clients.remove(i);
                let resp = process(&self.fs, &mut session, packet);
                let ghost mid = self.clients@;
                let ghost snew = session;
                proof {
                    assert(mid == at_entry.remove(i as int));
                    assert(assoc_map(mid) == m.remove(client_handle@));
                    assert(m.contains_key(client_handle@));
                }
                self.clients.push((key, session));
                proof {
                    assert(self.clients@.drop_last() =~= mid);
                    assert(self.clients_map() == assoc_map(mid).insert(client_handle@, snew));
                    assert(self.clients_map() =~= m.insert(client_handle@, snew));
                    lemma_assoc_contains(self.clients@, client_handle@);
                    assert(self.clients@[mid.len() as int].0@ == client_handle@);
                    lemma_assoc_index(self.clients@, mid.len() as int);
                    assert(forall|j: int|
                        0 <= j < mid.len() ==> (#[trigger] self.clients@[j]) == mid[j]);
                }
                return resp;
            }
            i = i + 1;
        }
        proof {
            lemma_assoc_contains(self.clients@, client_handle@);
            let w = choose|j: int|
                0 <= j < self.clients@.len() && (#[trigger] self.clients@[j]).0@
                    == client_handle@;
            assert(false);
        }
        vstd::pervasive::unreached()
    }
}

/// Builds the one-entry `Name` response of `Realpath` and `Readlink`: the
/// given string as the filename, an empty longname, no attributes.
fn single_name_resp(id: u32, filename: String) -> (r: SftpServerPacket)
    ensures
        r@ == spec_single_name(id, filename@),
{
    let ghost fname = filename@;
    let names = vec![
        Name { filename, longname: String::new(), attrs: Attrs::default() },
    ];
    let r = SftpServerPacket::Name { id, names };
    proof {
        assert(r@->Name_names =~= seq![
            NameV { filename: fname, longname: Seq::<char>::empty(), attrs: spec_empty_attrs() },
        ]);
    }
    r
}

} // verus!
