//! End-to-end scenarios: the engine against a small in-memory backend.

use std::cell::Cell;

use thrusftp::engine::{process, Fs, FsError, FsErrorKind, SftpServer};
use thrusftp::handles::{ClientSession, FsHandle};
use thrusftp::types::{
    Attrs, Name, Pflags, SftpClientPacket, SftpServerPacket, StatusCode, VecEos, VecU8,
};

/// One open file of the mock backend: a name and fixed contents.
struct MockFile {
    content: Vec<u8>,
}

/// A small in-memory backend: one five-byte file exists at `/tmp/x`; the
/// paths in `existing` answer `stat` successfully; `rename_called` records
/// whether the backend's rename was ever reached.
struct MockFs {
    existing: Vec<String>,
    rename_called: Cell<bool>,
    statvfs_supported: bool,
}

impl MockFs {
    fn new() -> MockFs {
        MockFs { existing: vec![], rename_called: Cell::new(false), statvfs_supported: false }
    }
}

fn not_found() -> FsError {
    FsError { kind: FsErrorKind::NotFound, message: "no such file".to_string() }
}

fn attrs_empty() -> Attrs {
    Attrs { size: None, uid_gid: None, permissions: None, atime_mtime: None, extended_attrs: vec![] }
}

impl Fs for MockFs {
    type FileHandle = MockFile;
    type DirHandle = Vec<Name>;

    fn open(&self, _filename: String, _pflags: Pflags, _attrs: Attrs) -> Result<MockFile, FsError> {
        Ok(MockFile { content: vec![10, 20, 30, 40, 50] })
    }

    fn close(&self, _handle: FsHandle<MockFile, Vec<Name>>) -> Result<(), FsError> {
        Ok(())
    }

    fn read(&self, handle: &mut MockFile, offset: u64, len: u32) -> Result<Vec<u8>, FsError> {
        let size = handle.content.len() as u64;
        if offset >= size {
            return Err(FsError { kind: FsErrorKind::Eof, message: "end of file".to_string() });
        }
        let end = size.min(offset + len as u64);
        Ok(handle.content[offset as usize..end as usize].to_vec())
    }

    fn write(&self, _handle: &mut MockFile, _offset: u64, _data: Vec<u8>) -> Result<(), FsError> {
        Ok(())
    }

    fn lstat(&self, _path: String) -> Result<Attrs, FsError> {
        Ok(attrs_empty())
    }

    fn fstat(&self, _handle: &mut MockFile) -> Result<Attrs, FsError> {
        Ok(attrs_empty())
    }

    fn setstat(&self, _path: String, _attrs: Attrs) -> Result<(), FsError> {
        Ok(())
    }

    fn fsetstat(&self, _handle: &mut MockFile, _attrs: Attrs) -> Result<(), FsError> {
        Ok(())
    }

    fn opendir(&self, _path: String) -> Result<Vec<Name>, FsError> {
        Ok(vec![])
    }

    fn readdir(&self, _handle: &mut Vec<Name>) -> Result<Vec<Name>, FsError> {
        Err(FsError { kind: FsErrorKind::Eof, message: "end of directory".to_string() })
    }

    fn remove(&self, _filename: String) -> Result<(), FsError> {
        Ok(())
    }

    fn mkdir(&self, _path: String, _attrs: Attrs) -> Result<(), FsError> {
        Ok(())
    }

    fn rmdir(&self, _path: String) -> Result<(), FsError> {
        Ok(())
    }

    fn realpath(&self, path: String) -> Result<String, FsError> {
        Ok(path)
    }

    fn stat(&self, path: String) -> Result<Attrs, FsError> {
        if self.existing.iter().any(|p| *p == path) {
            Ok(attrs_empty())
        } else {
            Err(not_found())
        }
    }

    fn rename(&self, _oldpath: String, _newpath: String) -> Result<(), FsError> {
        self.rename_called.set(true);
        Ok(())
    }

    fn readlink(&self, _path: String) -> Result<String, FsError> {
        Ok("/target".to_string())
    }

    fn symlink(&self, _linkpath: String, _targetpath: String) -> Result<(), FsError> {
        Ok(())
    }

    fn statvfs_supported(&self) -> bool {
        self.statvfs_supported
    }
}

fn session() -> ClientSession<MockFile, Vec<Name>> {
    ClientSession::new()
}

#[test]
fn init_answers_version_3_without_unsupported_extensions() {
    let fs = MockFs::new();
    let mut s = session();
    let resp = process(&fs, &mut s, SftpClientPacket::Init { version: 3, extensions: VecEos(vec![]) });
    match resp {
        SftpServerPacket::Version { version, extensions } => {
            assert_eq!(version, 3);
            // The backend supports nothing optional, so nothing is
            // advertised; in particular no statvfs entry.
            assert!(extensions.0.is_empty());
            assert!(!extensions.0.iter().any(|e| e.name == "statvfs@openssh.com"));
        }
        other => panic!("expected Version, got {:?}", other),
    }
}

#[test]
fn init_advertises_statvfs_only_when_supported() {
    let mut fs = MockFs::new();
    fs.statvfs_supported = true;
    let mut s = session();
    let resp = process(&fs, &mut s, SftpClientPacket::Init { version: 3, extensions: VecEos(vec![]) });
    match resp {
        SftpServerPacket::Version { extensions, .. } => {
            assert_eq!(extensions.0.len(), 1);
            assert_eq!(extensions.0[0].name, "statvfs@openssh.com");
            assert_eq!(extensions.0[0].data, "2");
        }
        other => panic!("expected Version, got {:?}", other),
    }
}

fn open_x(fs: &MockFs, s: &mut ClientSession<MockFile, Vec<Name>>, id: u32) -> String {
    let resp = process(
        fs,
        s,
        SftpClientPacket::Open {
            id,
            filename: "/tmp/x".to_string(),
            pflags: Pflags {
                read: false,
                write: true,
                append: false,
                creat: true,
                trunc: false,
                excl: false,
            },
            attrs: attrs_empty(),
        },
    );
    match resp {
        SftpServerPacket::Handle { id: rid, handle } => {
            assert_eq!(rid, id);
            handle
        }
        other => panic!("expected Handle, got {:?}", other),
    }
}

#[test]
fn open_twice_yields_distinct_suffixes() {
    let fs = MockFs::new();
    let mut s = session();
    let h0 = open_x(&fs, &mut s, 1);
    assert_eq!(h0, "/tmp/x0");
    let h1 = open_x(&fs, &mut s, 2);
    assert_eq!(h1, "/tmp/x1");
    assert_ne!(h0, h1);
}

#[test]
fn close_releases_handle_and_reuse_is_bad_message() {
    let fs = MockFs::new();
    let mut s = session();
    let h = open_x(&fs, &mut s, 1);
    let resp = process(&fs, &mut s, SftpClientPacket::Close { id: 2, handle: h.clone() });
    match resp {
        SftpServerPacket::Status { id, status_code, .. } => {
            assert_eq!(id, 2);
            assert_eq!(status_code, StatusCode::Okay);
        }
        other => panic!("expected Status, got {:?}", other),
    }
    // The handle is gone: any further use answers BadMessage.
    let resp = process(
        &fs,
        &mut s,
        SftpClientPacket::Read { id: 3, handle: h.clone(), offset: 0, len: 1 },
    );
    match resp {
        SftpServerPacket::Status { id, status_code, .. } => {
            assert_eq!(id, 3);
            assert_eq!(status_code, StatusCode::BadMessage);
        }
        other => panic!("expected Status, got {:?}", other),
    }
    // Closing it again is also BadMessage: no double close.
    let resp = process(&fs, &mut s, SftpClientPacket::Close { id: 4, handle: h });
    match resp {
        SftpServerPacket::Status { id, status_code, .. } => {
            assert_eq!(id, 4);
            assert_eq!(status_code, StatusCode::BadMessage);
        }
        other => panic!("expected Status, got {:?}", other),
    }
    // After close, the same handle string is allocated again.
    let h0 = open_x(&fs, &mut s, 5);
    assert_eq!(h0, "/tmp/x0");
}

#[test]
fn short_read_is_data_and_read_past_end_is_eof() {
    let fs = MockFs::new();
    let mut s = session();
    let h = open_x(&fs, &mut s, 1);
    // Ten bytes requested of a five-byte file: five bytes, not an error.
    let resp = process(
        &fs,
        &mut s,
        SftpClientPacket::Read { id: 2, handle: h.clone(), offset: 0, len: 10 },
    );
    match resp {
        SftpServerPacket::Data { id, data } => {
            assert_eq!(id, 2);
            assert_eq!(data, VecU8(vec![10, 20, 30, 40, 50]));
        }
        other => panic!("expected Data, got {:?}", other),
    }
    // Offset at or past the size: Status(Eof).
    let resp = process(&fs, &mut s, SftpClientPacket::Read { id: 3, handle: h, offset: 5, len: 10 });
    match resp {
        SftpServerPacket::Status { id, status_code, .. } => {
            assert_eq!(id, 3);
            assert_eq!(status_code, StatusCode::Eof);
        }
        other => panic!("expected Status, got {:?}", other),
    }
}

#[test]
fn read_on_directory_handle_is_bad_message() {
    let fs = MockFs::new();
    let mut s = session();
    let resp = process(&fs, &mut s, SftpClientPacket::Opendir { id: 1, path: "/d".to_string() });
    let h = match resp {
        SftpServerPacket::Handle { handle, .. } => handle,
        other => panic!("expected Handle, got {:?}", other),
    };
    let resp = process(&fs, &mut s, SftpClientPacket::Read { id: 2, handle: h, offset: 0, len: 1 });
    match resp {
        SftpServerPacket::Status { id, status_code, .. } => {
            assert_eq!(id, 2);
            assert_eq!(status_code, StatusCode::BadMessage);
        }
        other => panic!("expected Status, got {:?}", other),
    }
}

#[test]
fn rename_onto_existing_destination_fails_without_backend_rename() {
    let mut fs = MockFs::new();
    fs.existing = vec!["/b".to_string()];
    let mut s = session();
    let resp = process(
        &fs,
        &mut s,
        SftpClientPacket::Rename { id: 3, oldpath: "/a".to_string(), newpath: "/b".to_string() },
    );
    match resp {
        SftpServerPacket::Status { id, status_code, .. } => {
            assert_eq!(id, 3);
            assert_eq!(status_code, StatusCode::Failure);
        }
        other => panic!("expected Status, got {:?}", other),
    }
    assert!(!fs.rename_called.get(), "backend rename must not be reached");
}

#[test]
fn rename_to_free_destination_reaches_backend() {
    let fs = MockFs::new();
    let mut s = session();
    let resp = process(
        &fs,
        &mut s,
        SftpClientPacket::Rename { id: 4, oldpath: "/a".to_string(), newpath: "/b".to_string() },
    );
    match resp {
        SftpServerPacket::Status { status_code, .. } => {
            assert_eq!(status_code, StatusCode::Okay);
        }
        other => panic!("expected Status, got {:?}", other),
    }
    assert!(fs.rename_called.get());
}

#[test]
fn unsupported_extension_op_is_op_unsupported() {
    let fs = MockFs::new();
    let mut s = session();
    let resp = process(
        &fs,
        &mut s,
        SftpClientPacket::Extended {
            id: 8,
            extended_request: thrusftp::types::ExtendedRequest::OpensshPosixRename {
                oldpath: "/a".to_string(),
                newpath: "/b".to_string(),
            },
        },
    );
    match resp {
        SftpServerPacket::Status { id, status_code, .. } => {
            assert_eq!(id, 8);
            assert_eq!(status_code, StatusCode::OpUnsupported);
        }
        other => panic!("expected Status, got {:?}", other),
    }
}

#[test]
fn registry_routes_to_the_named_session() {
    let mut server = SftpServer::new(MockFs::new());
    let c1 = server.create_client_handle(&"client".to_string());
    let c2 = server.create_client_handle(&"client".to_string());
    assert_eq!(c1, "client0");
    assert_eq!(c2, "client1");
    assert!(server.has_client(&c1));
    assert!(!server.has_client(&"nobody".to_string()));
    // Each client gets its own handle table: both get the 0 suffix.
    let open = |id: u32| SftpClientPacket::Open {
        id,
        filename: "/tmp/x".to_string(),
        pflags: Pflags {
            read: true,
            write: false,
            append: false,
            creat: false,
            trunc: false,
            excl: false,
        },
        attrs: attrs_empty(),
    };
    match server.process(&c1, open(1)) {
        SftpServerPacket::Handle { handle, .. } => assert_eq!(handle, "/tmp/x0"),
        other => panic!("expected Handle, got {:?}", other),
    }
    match server.process(&c2, open(2)) {
        SftpServerPacket::Handle { handle, .. } => assert_eq!(handle, "/tmp/x0"),
        other => panic!("expected Handle, got {:?}", other),
    }
}

#[test]
fn registry_skips_session_handles_already_taken() {
    // A crafted prefix must not collide with an existing session handle:
    // "b1" + "0" and "b" + "10" name the same string, so the second must be
    // skipped, not shared.
    let mut server = SftpServer::new(MockFs::new());
    let b1 = server.create_client_handle(&"b1".to_string());
    assert_eq!(b1, "b10");
    let mut handles = vec![b1];
    for _ in 0..11 {
        let h = server.create_client_handle(&"b".to_string());
        assert!(!handles.contains(&h), "session handle {} issued twice", h);
        handles.push(h);
    }
    // Suffixes 0..9 are free, 10 is taken by "b1"+"0", so the eleventh is 11.
    assert_eq!(handles.last().unwrap(), "b11");
}

#[test]
fn realpath_answers_the_backend_string() {
    let fs = MockFs::new();
    let mut s = session();
    let resp = process(&fs, &mut s, SftpClientPacket::Realpath { id: 6, path: "/x/.".to_string() });
    match resp {
        SftpServerPacket::Name { id, names } => {
            assert_eq!(id, 6);
            assert_eq!(names.len(), 1);
            // The mock backend echoes the path; the entry carries it as the
            // filename, with an empty longname and no attributes.
            assert_eq!(names[0].filename, "/x/.");
            assert_eq!(names[0].longname, "");
            assert_eq!(names[0].attrs, attrs_empty());
        }
        other => panic!("expected Name, got {:?}", other),
    }
}

#[test]
fn statvfs_reply_carries_eleven_big_endian_words() {
    struct StatFs;
    impl Fs for StatFs {
        type FileHandle = MockFile;
        type DirHandle = Vec<Name>;

        fn open(&self, _f: String, _p: Pflags, _a: Attrs) -> Result<MockFile, FsError> {
            Err(not_found())
        }
        fn close(&self, _h: FsHandle<MockFile, Vec<Name>>) -> Result<(), FsError> {
            Ok(())
        }
        fn read(&self, _h: &mut MockFile, _o: u64, _l: u32) -> Result<Vec<u8>, FsError> {
            Err(not_found())
        }
        fn write(&self, _h: &mut MockFile, _o: u64, _d: Vec<u8>) -> Result<(), FsError> {
            Ok(())
        }
        fn lstat(&self, _p: String) -> Result<Attrs, FsError> {
            Err(not_found())
        }
        fn fstat(&self, _h: &mut MockFile) -> Result<Attrs, FsError> {
            Err(not_found())
        }
        fn setstat(&self, _p: String, _a: Attrs) -> Result<(), FsError> {
            Ok(())
        }
        fn fsetstat(&self, _h: &mut MockFile, _a: Attrs) -> Result<(), FsError> {
            Ok(())
        }
        fn opendir(&self, _p: String) -> Result<Vec<Name>, FsError> {
            Err(not_found())
        }
        fn readdir(&self, _h: &mut Vec<Name>) -> Result<Vec<Name>, FsError> {
            Err(not_found())
        }
        fn remove(&self, _p: String) -> Result<(), FsError> {
            Ok(())
        }
        fn mkdir(&self, _p: String, _a: Attrs) -> Result<(), FsError> {
            Ok(())
        }
        fn rmdir(&self, _p: String) -> Result<(), FsError> {
            Ok(())
        }
        fn realpath(&self, p: String) -> Result<String, FsError> {
            Ok(p)
        }
        fn stat(&self, _p: String) -> Result<Attrs, FsError> {
            Err(not_found())
        }
        fn rename(&self, _o: String, _n: String) -> Result<(), FsError> {
            Ok(())
        }
        fn readlink(&self, _p: String) -> Result<String, FsError> {
            Err(not_found())
        }
        fn symlink(&self, _l: String, _t: String) -> Result<(), FsError> {
            Ok(())
        }
        fn statvfs_supported(&self) -> bool {
            true
        }
        fn statvfs(&self, _p: String) -> Result<thrusftp::types::FsStats, FsError> {
            Ok(thrusftp::types::FsStats {
                f_bsize: 1,
                f_frsize: 2,
                f_blocks: 3,
                f_bfree: 4,
                f_bavail: 5,
                f_files: 6,
                f_ffree: 7,
                f_favail: 8,
                f_fsid: 9,
                f_flag: 10,
                f_namemax: 255,
            })
        }
    }
    let fs = StatFs;
    let mut s: ClientSession<MockFile, Vec<Name>> = ClientSession::new();
    let resp = process(
        &fs,
        &mut s,
        SftpClientPacket::Extended {
            id: 9,
            extended_request: thrusftp::types::ExtendedRequest::OpensshStatvfs {
                path: "/".to_string(),
            },
        },
    );
    match resp {
        SftpServerPacket::ExtendedReply { id, data } => {
            assert_eq!(id, 9);
            let mut expected = Vec::new();
            for v in [1u64, 2, 3, 4, 5, 6, 7, 8, 9, 10, 255] {
                expected.extend_from_slice(&v.to_be_bytes());
            }
            assert_eq!(data.0, expected);
        }
        other => panic!("expected ExtendedReply, got {:?}", other),
    }
}
