//! The packet model: the closed sets of client requests and server responses
//! of SFTP version 3, and the composite values they carry.
//!
//! Every exec-level type here has a mathematical view (`View::V`) used by the
//! codec and engine contracts: `String` fields become `Seq<char>`, `Vec`
//! fields become `Seq`, and each composite gets a mirror struct or enum whose
//! name ends in `V`.

use vstd::prelude::*;

verus! {

/// A protocol-level failure: the input was malformed, independent of any
/// storage backend.
///
/// Invalid UTF-8 in a string field is rejected (`InvalidUtf8`) rather than
/// decoded lossily; the one decoding policy this crate commits to.
#[derive(Copy, Clone, Debug, PartialEq, Eq, Structural)]
pub enum ProtocolError {
    /// The opcode byte names no known request.
    UnknownCommand,
    /// A string field did not hold valid UTF-8.
    InvalidUtf8,
    /// A length did not match the data: a frame not fully consumed, a field
    /// reaching past the frame boundary, or a value too long for its length
    /// prefix on the wire.
    InvalidLength,
    /// The buffer ends before the declared frame length.
    IncompleteBuffer,
    /// A handle was presented that the engine does not hold.
    NoSuchHandle,
    /// An extended request carried a name outside the negotiated set.
    UnknownExtension,
}

/// The six open flags of an `Open` request, packed as bits 0 to 5 of a
/// 32-bit word on the wire.
#[derive(Copy, Clone, Debug, PartialEq, Eq, Structural)]
pub struct Pflags {
    pub read: bool,
    pub write: bool,
    pub append: bool,
    pub creat: bool,
    pub trunc: bool,
    pub excl: bool,
}

/// The presence bits of an `Attrs` value: each optional field of `Attrs` is
/// carried on the wire only when its bit is set.
#[derive(Copy, Clone, Debug, PartialEq, Eq, Structural)]
pub struct Attrsflags {
    pub size: bool,
    pub uidgid: bool,
    pub permissions: bool,
    pub acmodtime: bool,
    pub extended: bool,
}

/// One extended-attribute pair inside an `Attrs` value.
#[derive(Clone, Debug, PartialEq, Eq)]
pub struct ExtendedAttr {
    pub attr_type: String,
    pub data: String,
}

/// File attributes. Absence of a field is carried by the flags word, so
/// absence and zero are distinguishable.
#[derive(Clone, Debug, PartialEq, Eq)]
pub struct Attrs {
    pub size: Option<u64>,
    pub uid_gid: Option<(u32, u32)>,
    pub permissions: Option<u32>,
    pub atime_mtime: Option<(u32, u32)>,
    pub extended_attrs: Vec<ExtendedAttr>,
}

/// The status codes of a `Status` response. The wire values are fixed by the
/// protocol; see the codec for the numbering.
#[derive(Copy, Clone, Debug, PartialEq, Eq, Structural)]
pub enum StatusCode {
    Okay,
    Eof,
    NoSuchFile,
    PermissionDenied,
    Failure,
    BadMessage,
    NoConnection,
    ConnectionLost,
    OpUnsupported,
}

/// One named extension advertised in the `Init`/`Version` handshake.
#[derive(Clone, Debug, PartialEq, Eq)]
pub struct Extension {
    pub name: String,
    pub data: String,
}

/// One directory entry of a `Name` response.
#[derive(Clone, Debug, PartialEq, Eq)]
pub struct Name {
    pub filename: String,
    pub longname: String,
    pub attrs: Attrs,
}

/// The discriminator of an extended request: a name string on the wire, not
/// a number.
#[derive(Copy, Clone, Debug, PartialEq, Eq, Structural)]
pub enum ExtendedRequestType {
    OpensshStatvfs,
    OpensshPosixRename,
    OpensshHardlink,
    OpensshFsync,
}

/// The payload of an `Extended` request, one variant per recognized
/// extension name.
#[derive(Clone, Debug, PartialEq, Eq)]
pub enum ExtendedRequest {
    OpensshStatvfs { path: String },
    OpensshPosixRename { oldpath: String, newpath: String },
    OpensshHardlink { oldpath: String, newpath: String },
    OpensshFsync { handle: String },
}

/// An opaque string token referencing a server-held open resource. Generated
/// by the engine, never by the client.
pub type Handle = String;

/// A byte blob that is length-prefixed on the wire, as opposed to a counted
/// list of elements.
#[derive(Clone, Debug, PartialEq, Eq)]
pub struct VecU8(pub Vec<u8>);

/// A list with no count on the wire: it ends when the enclosing frame ends.
/// Used only for the extension list of `Init` and `Version`.
#[derive(Clone, Debug, PartialEq, Eq)]
pub struct VecEos<T>(pub Vec<T>);

/// A client request packet, one variant per request opcode.
#[derive(Clone, Debug, PartialEq, Eq)]
pub enum SftpClientPacket {
    Init { version: u32, extensions: VecEos<Extension> },
    Open { id: u32, filename: String, pflags: Pflags, attrs: Attrs },
    Close { id: u32, handle: Handle },
    Read { id: u32, handle: Handle, offset: u64, len: u32 },
    Write { id: u32, handle: Handle, offset: u64, data: VecU8 },
    Lstat { id: u32, path: String },
    Fstat { id: u32, handle: Handle },
    Setstat { id: u32, path: String, attrs: Attrs },
    Fsetstat { id: u32, handle: Handle, attrs: Attrs },
    Opendir { id: u32, path: String },
    Readdir { id: u32, handle: Handle },
    Remove { id: u32, filename: String },
    Mkdir { id: u32, path: String, attrs: Attrs },
    Rmdir { id: u32, path: String },
    Realpath { id: u32, path: String },
    Stat { id: u32, path: String },
    Rename { id: u32, oldpath: String, newpath: String },
    Readlink { id: u32, path: String },
    Symlink { id: u32, linkpath: String, targetpath: String },
    Extended { id: u32, extended_request: ExtendedRequest },
}

/// A server response packet, one variant per response opcode.
#[derive(Clone, Debug, PartialEq, Eq)]
pub enum SftpServerPacket {
    Version { version: u32, extensions: VecEos<Extension> },
    Status { id: u32, status_code: StatusCode, error_message: String, language_tag: String },
    Handle { id: u32, handle: Handle },
    Data { id: u32, data: VecU8 },
    Name { id: u32, names: Vec<Name> },
    Attrs { id: u32, attrs: Attrs },
    ExtendedReply { id: u32, data: VecU8 },
}

/// The filesystem statistics returned by the `statvfs@openssh.com` extension:
/// eleven unsigned 64-bit fields, in wire order.
#[derive(Copy, Clone, Debug, PartialEq, Eq, Structural)]
pub struct FsStats {
    pub f_bsize: u64,
    pub f_frsize: u64,
    pub f_blocks: u64,
    pub f_bfree: u64,
    pub f_bavail: u64,
    pub f_files: u64,
    pub f_ffree: u64,
    pub f_favail: u64,
    pub f_fsid: u64,
    pub f_flag: u64,
    pub f_namemax: u64,
}

// ----------------------------------------------------------------------
// Mathematical views.

/// View of `ExtendedAttr`.
#[verifier::ext_equal]
pub struct ExtendedAttrV {
    pub attr_type: Seq<char>,
    pub data: Seq<char>,
}

/// View of `Attrs`.
#[verifier::ext_equal]
pub struct AttrsV {
    pub size: Option<u64>,
    pub uid_gid: Option<(u32, u32)>,
    pub permissions: Option<u32>,
    pub atime_mtime: Option<(u32, u32)>,
    pub extended_attrs: Seq<ExtendedAttrV>,
}

/// View of `Extension`.
#[verifier::ext_equal]
pub struct ExtensionV {
    pub name: Seq<char>,
    pub data: Seq<char>,
}

/// View of `Name`.
#[verifier::ext_equal]
pub struct NameV {
    pub filename: Seq<char>,
    pub longname: Seq<char>,
    pub attrs: AttrsV,
}

/// View of `ExtendedRequest`.
#[verifier::ext_equal]
pub enum ExtendedRequestV {
    OpensshStatvfs { path: Seq<char> },
    OpensshPosixRename { oldpath: Seq<char>, newpath: Seq<char> },
    OpensshHardlink { oldpath: Seq<char>, newpath: Seq<char> },
    OpensshFsync { handle: Seq<char> },
}

/// View of `SftpClientPacket`.
#[verifier::ext_equal]
pub enum ClientPacketV {
    Init { version: u32, extensions: Seq<ExtensionV> },
    Open { id: u32, filename: Seq<char>, pflags: Pflags, attrs: AttrsV },
    Close { id: u32, handle: Seq<char> },
    Read { id: u32, handle: Seq<char>, offset: u64, len: u32 },
    Write { id: u32, handle: Seq<char>, offset: u64, data: Seq<u8> },
    Lstat { id: u32, path: Seq<char> },
    Fstat { id: u32, handle: Seq<char> },
    Setstat { id: u32, path: Seq<char>, attrs: AttrsV },
    Fsetstat { id: u32, handle: Seq<char>, attrs: AttrsV },
    Opendir { id: u32, path: Seq<char> },
    Readdir { id: u32, handle: Seq<char> },
    Remove { id: u32, filename: Seq<char> },
    Mkdir { id: u32, path: Seq<char>, attrs: AttrsV },
    Rmdir { id: u32, path: Seq<char> },
    Realpath { id: u32, path: Seq<char> },
    Stat { id: u32, path: Seq<char> },
    Rename { id: u32, oldpath: Seq<char>, newpath: Seq<char> },
    Readlink { id: u32, path: Seq<char> },
    Symlink { id: u32, linkpath: Seq<char>, targetpath: Seq<char> },
    Extended { id: u32, extended_request: ExtendedRequestV },
}

/// View of `SftpServerPacket`.
#[verifier::ext_equal]
pub enum ServerPacketV {
    Version { version: u32, extensions: Seq<ExtensionV> },
    Status { id: u32, status_code: StatusCode, error_message: Seq<char>, language_tag: Seq<char> },
    Handle { id: u32, handle: Seq<char> },
    Data { id: u32, data: Seq<u8> },
    Name { id: u32, names: Seq<NameV> },
    Attrs { id: u32, attrs: AttrsV },
    ExtendedReply { id: u32, data: Seq<u8> },
}

impl View for Pflags {
    type V = Pflags;

    open spec fn view(&self) -> Pflags {
        *self
    }
}

impl View for Attrsflags {
    type V = Attrsflags;

    open spec fn view(&self) -> Attrsflags {
        *self
    }
}

impl View for StatusCode {
    type V = StatusCode;

    open spec fn view(&self) -> StatusCode {
        *self
    }
}

impl View for ExtendedRequestType {
    type V = ExtendedRequestType;

    open spec fn view(&self) -> ExtendedRequestType {
        *self
    }
}

impl View for FsStats {
    type V = FsStats;

    open spec fn view(&self) -> FsStats {
        *self
    }
}

impl View for ExtendedAttr {
    type V = ExtendedAttrV;

    open spec fn view(&self) -> ExtendedAttrV {
        ExtendedAttrV { attr_type: self.attr_type@, data: self.data@ }
    }
}

impl View for Attrs {
    type V = AttrsV;

    open spec fn view(&self) -> AttrsV {
        AttrsV {
            size: self.size,
            uid_gid: self.uid_gid,
            permissions: self.permissions,
            atime_mtime: self.atime_mtime,
            extended_attrs: self.extended_attrs@.map_values(|a: ExtendedAttr| a@),
        }
    }
}

impl View for Extension {
    type V = ExtensionV;

    open spec fn view(&self) -> ExtensionV {
        ExtensionV { name: self.name@, data: self.data@ }
    }
}

impl View for Name {
    type V = NameV;

    open spec fn view(&self) -> NameV {
        NameV { filename: self.filename@, longname: self.longname@, attrs: self.attrs@ }
    }
}

impl View for ExtendedRequest {
    type V = ExtendedRequestV;

    open spec fn view(&self) -> ExtendedRequestV {
        match self {
            ExtendedRequest::OpensshStatvfs { path } => ExtendedRequestV::OpensshStatvfs {
                path: path@,
            },
            ExtendedRequest::OpensshPosixRename { oldpath, newpath } => {
                ExtendedRequestV::OpensshPosixRename { oldpath: oldpath@, newpath: newpath@ }
            },
            ExtendedRequest::OpensshHardlink { oldpath, newpath } => {
                ExtendedRequestV::OpensshHardlink { oldpath: oldpath@, newpath: newpath@ }
            },
            ExtendedRequest::OpensshFsync { handle } => ExtendedRequestV::OpensshFsync {
                handle: handle@,
            },
        }
    }
}

impl View for VecU8 {
    type V = Seq<u8>;

    open spec fn view(&self) -> Seq<u8> {
        self.0@
    }
}

impl<T: View> View for VecEos<T> {
    type V = Seq<T::V>;

    open spec fn view(&self) -> Seq<T::V> {
        self.0@.map_values(|t: T| t@)
    }
}

impl View for SftpClientPacket {
    type V = ClientPacketV;

    open spec fn view(&self) -> ClientPacketV {
        match self {
            SftpClientPacket::Init { version, extensions } => ClientPacketV::Init {
                version: *version,
                extensions: extensions@,
            },
            SftpClientPacket::Open { id, filename, pflags, attrs } => ClientPacketV::Open {
                id: *id,
                filename: filename@,
                pflags: *pflags,
                attrs: attrs@,
            },
            SftpClientPacket::Close { id, handle } => ClientPacketV::Close {
                id: *id,
                handle: handle@,
            },
            SftpClientPacket::Read { id, handle, offset, len } => ClientPacketV::Read {
                id: *id,
                handle: handle@,
                offset: *offset,
                len: *len,
            },
            SftpClientPacket::Write { id, handle, offset, data } => ClientPacketV::Write {
                id: *id,
                handle: handle@,
                offset: *offset,
                data: data@,
            },
            SftpClientPacket::Lstat { id, path } => ClientPacketV::Lstat { id: *id, path: path@ },
            SftpClientPacket::Fstat { id, handle } => ClientPacketV::Fstat {
                id: *id,
                handle: handle@,
            },
            SftpClientPacket::Setstat { id, path, attrs } => ClientPacketV::Setstat {
                id: *id,
                path: path@,
                attrs: attrs@,
            },
            SftpClientPacket::Fsetstat { id, handle, attrs } => ClientPacketV::Fsetstat {
                id: *id,
                handle: handle@,
                attrs: attrs@,
            },
            SftpClientPacket::Opendir { id, path } => ClientPacketV::Opendir {
                id: *id,
                path: path@,
            },
            SftpClientPacket::Readdir { id, handle } => ClientPacketV::Readdir {
                id: *id,
                handle: handle@,
            },
            SftpClientPacket::Remove { id, filename } => ClientPacketV::Remove {
                id: *id,
                filename: filename@,
            },
            SftpClientPacket::Mkdir { id, path, attrs } => ClientPacketV::Mkdir {
                id: *id,
                path: path@,
                attrs: attrs@,
            },
            SftpClientPacket::Rmdir { id, path } => ClientPacketV::Rmdir { id: *id, path: path@ },
            SftpClientPacket::Realpath { id, path } => ClientPacketV::Realpath {
                id: *id,
                path: path@,
            },
            SftpClientPacket::Stat { id, path } => ClientPacketV::Stat { id: *id, path: path@ },
            SftpClientPacket::Rename { id, oldpath, newpath } => ClientPacketV::Rename {
                id: *id,
                oldpath: oldpath@,
                newpath: newpath@,
            },
            SftpClientPacket::Readlink { id, path } => ClientPacketV::Readlink {
                id: *id,
                path: path@,
            },
            SftpClientPacket::Symlink { id, linkpath, targetpath } => ClientPacketV::Symlink {
                id: *id,
                linkpath: linkpath@,
                targetpath: targetpath@,
            },
            SftpClientPacket::Extended { id, extended_request } => ClientPacketV::Extended {
                id: *id,
                extended_request: extended_request@,
            },
        }
    }
}

impl View for SftpServerPacket {
    type V = ServerPacketV;

    open spec fn view(&self) -> ServerPacketV {
        match self {
            SftpServerPacket::Version { version, extensions } => ServerPacketV::Version {
                version: *version,
                extensions: extensions@,
            },
            SftpServerPacket::Status { id, status_code, error_message, language_tag } => {
                ServerPacketV::Status {
                    id: *id,
                    status_code: *status_code,
                    error_message: error_message@,
                    language_tag: language_tag@,
                }
            },
            SftpServerPacket::Handle { id, handle } => ServerPacketV::Handle {
                id: *id,
                handle: handle@,
            },
            SftpServerPacket::Data { id, data } => ServerPacketV::Data { id: *id, data: data@ },
            SftpServerPacket::Name { id, names } => ServerPacketV::Name {
                id: *id,
                names: names@.map_values(|n: Name| n@),
            },
            SftpServerPacket::Attrs { id, attrs } => ServerPacketV::Attrs {
                id: *id,
                attrs: attrs@,
            },
            SftpServerPacket::ExtendedReply { id, data } => ServerPacketV::ExtendedReply {
                id: *id,
                data: data@,
            },
        }
    }
}

impl Default for Attrs {
    /// An `Attrs` with every optional field absent and no extended
    /// attributes.
    fn default() -> (r: Attrs)
        ensures
            r@.size is None,
            r@.uid_gid is None,
            r@.permissions is None,
            r@.atime_mtime is None,
            r@.extended_attrs == Seq::<ExtendedAttrV>::empty(),
    {
        let r = Attrs {
            size: None,
            uid_gid: None,
            permissions: None,
            atime_mtime: None,
            extended_attrs: Vec::new(),
        };
        proof {
            assert(r@.extended_attrs =~= Seq::<ExtendedAttrV>::empty());
        }
        r
    }
}

} // verus!
