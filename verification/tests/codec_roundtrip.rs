//! Round-trip and frame-integrity tests for the wire codec.

use thrusftp::types::{
    Attrs, Attrsflags, Extension, ExtendedAttr, ExtendedRequest, Name, Pflags, ProtocolError,
    SftpClientPacket, SftpServerPacket, StatusCode, VecEos, VecU8,
};

fn attrs_empty() -> Attrs {
    Attrs { size: None, uid_gid: None, permissions: None, atime_mtime: None, extended_attrs: vec![] }
}

fn roundtrip_client(p: SftpClientPacket) {
    let bytes = p.to_bytes().expect("encode");
    let back = SftpClientPacket::from_bytes(&bytes).expect("decode");
    assert_eq!(p, back);
}

fn roundtrip_server(p: SftpServerPacket) {
    let bytes = p.to_bytes().expect("encode");
    let back = SftpServerPacket::from_bytes(&bytes).expect("decode");
    assert_eq!(p, back);
}

#[test]
fn roundtrip_init_with_extensions() {
    roundtrip_client(SftpClientPacket::Init {
        version: 3,
        extensions: VecEos(vec![
            Extension { name: "statvfs@openssh.com".to_string(), data: "2".to_string() },
            Extension { name: "x".to_string(), data: String::new() },
        ]),
    });
    roundtrip_client(SftpClientPacket::Init { version: 3, extensions: VecEos(vec![]) });
}

#[test]
fn roundtrip_open_all_attr_subsets() {
    // Every subset of the four optional fields, with and without extended
    // attributes: 32 combinations.
    for bits in 0..32u32 {
        let attrs = Attrs {
            size: if bits & 1 != 0 { Some(77) } else { None },
            uid_gid: if bits & 2 != 0 { Some((1000, 100)) } else { None },
            permissions: if bits & 4 != 0 { Some(0o644) } else { None },
            atime_mtime: if bits & 8 != 0 { Some((111, 222)) } else { None },
            extended_attrs: if bits & 16 != 0 {
                vec![ExtendedAttr { attr_type: "t".to_string(), data: "d".to_string() }]
            } else {
                vec![]
            },
        };
        roundtrip_client(SftpClientPacket::Open {
            id: bits,
            filename: "/tmp/x".to_string(),
            pflags: Pflags {
                read: true,
                write: false,
                append: false,
                creat: true,
                trunc: false,
                excl: false,
            },
            attrs,
        });
    }
}

#[test]
fn roundtrip_every_request_variant() {
    let a = || attrs_empty();
    roundtrip_client(SftpClientPacket::Close { id: 1, handle: "h0".to_string() });
    roundtrip_client(SftpClientPacket::Read {
        id: 2,
        handle: String::new(),
        offset: u64::MAX,
        len: 10,
    });
    roundtrip_client(SftpClientPacket::Write {
        id: 3,
        handle: "h".to_string(),
        offset: 0,
        data: VecU8(vec![0, 1, 2, 255]),
    });
    roundtrip_client(SftpClientPacket::Write {
        id: 3,
        handle: "h".to_string(),
        offset: 7,
        data: VecU8(vec![]),
    });
    roundtrip_client(SftpClientPacket::Lstat { id: 4, path: "/a".to_string() });
    roundtrip_client(SftpClientPacket::Fstat { id: 5, handle: "q".to_string() });
    roundtrip_client(SftpClientPacket::Setstat { id: 6, path: "/a".to_string(), attrs: a() });
    roundtrip_client(SftpClientPacket::Fsetstat { id: 7, handle: "q".to_string(), attrs: a() });
    roundtrip_client(SftpClientPacket::Opendir { id: 8, path: "/d".to_string() });
    roundtrip_client(SftpClientPacket::Readdir { id: 9, handle: "d0".to_string() });
    roundtrip_client(SftpClientPacket::Remove { id: 10, filename: "/f".to_string() });
    roundtrip_client(SftpClientPacket::Mkdir { id: 11, path: "/d".to_string(), attrs: a() });
    roundtrip_client(SftpClientPacket::Rmdir { id: 12, path: "/d".to_string() });
    roundtrip_client(SftpClientPacket::Realpath { id: 13, path: ".".to_string() });
    roundtrip_client(SftpClientPacket::Stat { id: 14, path: "/a".to_string() });
    roundtrip_client(SftpClientPacket::Rename {
        id: 15,
        oldpath: "/a".to_string(),
        newpath: "/b".to_string(),
    });
    roundtrip_client(SftpClientPacket::Readlink { id: 16, path: "/l".to_string() });
    roundtrip_client(SftpClientPacket::Symlink {
        id: 17,
        linkpath: "/l".to_string(),
        targetpath: "/t".to_string(),
    });
    roundtrip_client(SftpClientPacket::Extended {
        id: 18,
        extended_request: ExtendedRequest::OpensshStatvfs { path: "/".to_string() },
    });
    roundtrip_client(SftpClientPacket::Extended {
        id: 19,
        extended_request: ExtendedRequest::OpensshPosixRename {
            oldpath: "/a".to_string(),
            newpath: "/b".to_string(),
        },
    });
    roundtrip_client(SftpClientPacket::Extended {
        id: 20,
        extended_request: ExtendedRequest::OpensshHardlink {
            oldpath: "/a".to_string(),
            newpath: "/b".to_string(),
        },
    });
    roundtrip_client(SftpClientPacket::Extended {
        id: 21,
        extended_request: ExtendedRequest::OpensshFsync { handle: "h".to_string() },
    });
}

#[test]
fn roundtrip_every_response_variant() {
    roundtrip_server(SftpServerPacket::Version {
        version: 3,
        extensions: VecEos(vec![Extension {
            name: "fsync@openssh.com".to_string(),
            data: "1".to_string(),
        }]),
    });
    for code in [
        StatusCode::Okay,
        StatusCode::Eof,
        StatusCode::NoSuchFile,
        StatusCode::PermissionDenied,
        StatusCode::Failure,
        StatusCode::BadMessage,
        StatusCode::NoConnection,
        StatusCode::ConnectionLost,
        StatusCode::OpUnsupported,
    ] {
        roundtrip_server(SftpServerPacket::Status {
            id: 1,
            status_code: code,
            error_message: "message".to_string(),
            language_tag: "en".to_string(),
        });
    }
    roundtrip_server(SftpServerPacket::Handle { id: 2, handle: "/tmp/x0".to_string() });
    roundtrip_server(SftpServerPacket::Data { id: 3, data: VecU8(vec![1, 2, 3]) });
    roundtrip_server(SftpServerPacket::Data { id: 3, data: VecU8(vec![]) });
    roundtrip_server(SftpServerPacket::Name {
        id: 4,
        names: vec![
            Name {
                filename: "a".to_string(),
                longname: "-rw- a".to_string(),
                attrs: attrs_empty(),
            },
            Name { filename: String::new(), longname: String::new(), attrs: attrs_empty() },
        ],
    });
    roundtrip_server(SftpServerPacket::Attrs {
        id: 5,
        attrs: Attrs {
            size: Some(1),
            uid_gid: None,
            permissions: Some(0o755),
            atime_mtime: None,
            extended_attrs: vec![],
        },
    });
    roundtrip_server(SftpServerPacket::ExtendedReply { id: 6, data: VecU8(vec![9; 88]) });
}

#[test]
fn roundtrip_non_ascii_strings() {
    roundtrip_client(SftpClientPacket::Stat { id: 1, path: "/caf\u{e9}/\u{1F4C1}".to_string() });
}

#[test]
fn exact_close_frame_bytes() {
    // length 10 = opcode 1 + id 4 + string header 4 + 1 byte of "h".
    let p = SftpClientPacket::Close { id: 1, handle: "h".to_string() };
    let bytes = p.to_bytes().unwrap();
    assert_eq!(bytes, vec![0, 0, 0, 10, 4, 0, 0, 0, 1, 0, 0, 0, 1, b'h']);
}

#[test]
fn symlink_fields_swapped_on_wire() {
    // The wire order is target first, then link, mirroring the historical
    // server this format stays compatible with.
    let p = SftpClientPacket::Symlink {
        id: 7,
        linkpath: "LL".to_string(),
        targetpath: "T".to_string(),
    };
    let bytes = p.to_bytes().unwrap();
    let expected = vec![
        0, 0, 0, 16, // length
        20,   // opcode
        0, 0, 0, 7, // id
        0, 0, 0, 1, b'T', // targetpath written first
        0, 0, 0, 2, b'L', b'L', // linkpath second
    ];
    assert_eq!(bytes, expected);
    assert_eq!(SftpClientPacket::from_bytes(&bytes).unwrap(), p);
}

#[test]
fn pflags_word_roundtrip_all_combinations() {
    for bits in 0..64u32 {
        let f = Pflags {
            read: bits & 1 != 0,
            write: bits & 2 != 0,
            append: bits & 4 != 0,
            creat: bits & 8 != 0,
            trunc: bits & 16 != 0,
            excl: bits & 32 != 0,
        };
        assert_eq!(Pflags::from_word(f.to_word()), f);
        assert_eq!(f.to_word(), bits);
    }
}

#[test]
fn attrsflags_word_roundtrip_all_combinations() {
    for bits in 0..32u32 {
        let f = Attrsflags {
            size: bits & 1 != 0,
            uidgid: bits & 2 != 0,
            permissions: bits & 4 != 0,
            acmodtime: bits & 8 != 0,
            extended: bits & 16 != 0,
        };
        assert_eq!(Attrsflags::from_word(f.to_word()), f);
        let expected = (bits & 0xf) + if bits & 16 != 0 { 0x8000_0000 } else { 0 };
        assert_eq!(f.to_word(), expected);
    }
}

#[test]
fn frame_too_short_is_incomplete() {
    assert_eq!(
        SftpClientPacket::from_bytes(&[0, 0, 0]),
        Err(ProtocolError::IncompleteBuffer)
    );
    // Declared length larger than the buffer: the frame is not complete.
    assert_eq!(
        SftpClientPacket::from_bytes(&[0, 0, 0, 50, 4, 0, 0, 0, 1]),
        Err(ProtocolError::IncompleteBuffer)
    );
}

#[test]
fn frame_length_mismatch_is_rejected() {
    // A valid Close frame whose declared length is one byte too long: the
    // parser would need a byte that belongs past the frame.
    let mut bytes = SftpClientPacket::Close { id: 1, handle: "h".to_string() }
        .to_bytes()
        .unwrap();
    bytes[3] += 1;
    bytes.push(0); // the buffer has the byte, but it is past the frame
    assert_eq!(SftpClientPacket::from_bytes(&bytes), Err(ProtocolError::InvalidLength));

    // Declared length one byte too short: the packet's own fields overrun.
    let mut bytes = SftpClientPacket::Close { id: 1, handle: "h".to_string() }
        .to_bytes()
        .unwrap();
    bytes[3] -= 1;
    assert_eq!(SftpClientPacket::from_bytes(&bytes), Err(ProtocolError::InvalidLength));
}

#[test]
fn frame_ignores_bytes_of_next_frame() {
    let p = SftpClientPacket::Stat { id: 9, path: "/a".to_string() };
    let mut bytes = p.to_bytes().unwrap();
    let q = SftpClientPacket::Rmdir { id: 10, path: "/b".to_string() };
    bytes.extend_from_slice(&q.to_bytes().unwrap());
    // Decoding reads only the first frame; the second frame's bytes are
    // not consumed.
    assert_eq!(SftpClientPacket::from_bytes(&bytes).unwrap(), p);
}

#[test]
fn unknown_opcode_is_distinct_error() {
    // length 5: opcode 99 and a 4-byte id.
    let bytes = vec![0, 0, 0, 5, 99, 0, 0, 0, 1];
    assert_eq!(SftpClientPacket::from_bytes(&bytes), Err(ProtocolError::UnknownCommand));
}

#[test]
fn unknown_extension_is_distinct_error() {
    // Extended request with an unrecognized name.
    let name = b"nope@example.com";
    let mut payload = vec![200u8];
    payload.extend_from_slice(&1u32.to_be_bytes());
    payload.extend_from_slice(&(name.len() as u32).to_be_bytes());
    payload.extend_from_slice(name);
    let mut bytes = (payload.len() as u32).to_be_bytes().to_vec();
    bytes.extend_from_slice(&payload);
    assert_eq!(SftpClientPacket::from_bytes(&bytes), Err(ProtocolError::UnknownExtension));
}

#[test]
fn invalid_utf8_is_rejected() {
    // A Stat packet whose path holds an invalid UTF-8 byte.
    let mut payload = vec![17u8];
    payload.extend_from_slice(&1u32.to_be_bytes());
    payload.extend_from_slice(&2u32.to_be_bytes());
    payload.extend_from_slice(&[0xff, 0xfe]);
    let mut bytes = (payload.len() as u32).to_be_bytes().to_vec();
    bytes.extend_from_slice(&payload);
    assert_eq!(SftpClientPacket::from_bytes(&bytes), Err(ProtocolError::InvalidUtf8));
}
