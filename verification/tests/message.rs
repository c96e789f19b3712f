use common::rpc::{
    read_packet, Error, PullMetadata, PullMetadataFunc, PullMetadataResult,
    PullMetadataResultFunc, PushMetadata, PushMetadataFunc, PushMetadataResult, RpcFail, RpcHello,
    RpcMessage, RpcNotify,
};

fn encoded(message: &RpcMessage) -> Vec<u8> {
    let mut out = Vec::new();
    message.serialize(&mut out).unwrap();
    out
}

#[test]
fn codes_of_the_eight_kinds() {
    assert_eq!(RpcMessage::Okay(()).get_code(), 0x0a);
    assert_eq!(RpcMessage::Fail(RpcFail { code: 0, message: "" }).get_code(), 0x0b);
    assert_eq!(RpcMessage::Notify(RpcNotify { code: 0, message: "" }).get_code(), 0x0c);
    let hello = RpcHello { protocol_version: 0, license_data: &[], license_id: [0; 6], flags: 0 };
    assert_eq!(RpcMessage::Hello(hello).get_code(), 0x0d);
    let pull = PullMetadata { flags: 0, keys: vec![], funcs: vec![] };
    assert_eq!(RpcMessage::PullMetadata(pull).get_code(), 0x0e);
    let pulled = PullMetadataResult { status: vec![], funcs: vec![] };
    assert_eq!(RpcMessage::PullMetadataResult(pulled).get_code(), 0x0f);
    let push = PushMetadata {
        flags: 0,
        idb_path: "",
        file_path: "",
        md5: [0; 16],
        hostname: "",
        funcs: vec![],
        addresses: vec![],
    };
    assert_eq!(RpcMessage::PushMetadata(push).get_code(), 0x10);
    let pushed = PushMetadataResult { status: vec![] };
    assert_eq!(RpcMessage::PushMetadataResult(pushed).get_code(), 0x11);
}

#[test]
fn okay_is_its_code_alone() {
    assert_eq!(encoded(&RpcMessage::Okay(())), vec![0x0a]);
    assert!(matches!(RpcMessage::deserialize(&[0x0a]), Ok(RpcMessage::Okay(()))));
}

#[test]
fn okay_tolerates_trailing_bytes() {
    let buffer = [0x0a, 1, 2, 3, 4, 5];
    assert!(matches!(RpcMessage::deserialize(&buffer), Ok(RpcMessage::Okay(()))));
    match RpcMessage::decode(&buffer) {
        Ok((RpcMessage::Okay(()), left)) => assert_eq!(left, 5),
        _ => panic!("not decoded as the message without a record"),
    }
}

#[test]
fn fail_bytes() {
    let message = RpcMessage::Fail(RpcFail { code: 0x01020304, message: "no" });
    assert_eq!(encoded(&message), vec![0x0b, 1, 2, 3, 4, 0, 0, 0, 2, b'n', b'o']);
}

#[test]
fn fail_round_trip() {
    let message = RpcMessage::Fail(RpcFail { code: 404, message: "not found: \u{1F50D}" });
    let bytes = encoded(&message);
    match RpcMessage::decode(&bytes) {
        Ok((RpcMessage::Fail(back), left)) => {
            assert_eq!(back.code, 404);
            assert_eq!(back.message, "not found: \u{1F50D}");
            assert_eq!(left, 0);
        },
        _ => panic!("not decoded as a failure"),
    }
}

#[test]
fn notify_round_trip() {
    let message = RpcMessage::Notify(RpcNotify { code: 7, message: "maintenance at noon" });
    let bytes = encoded(&message);
    assert_eq!(bytes[0], 0x0c);
    match RpcMessage::deserialize(&bytes) {
        Ok(RpcMessage::Notify(back)) => {
            assert_eq!(back.code, 7);
            assert_eq!(back.message, "maintenance at noon");
        },
        _ => panic!("not decoded as a notification"),
    }
}

#[test]
fn hello_bytes() {
    let hello = RpcHello {
        protocol_version: 2,
        license_data: &[0xaa, 0xbb],
        license_id: [1, 2, 3, 4, 5, 6],
        flags: 0x80000000,
    };
    assert_eq!(
        encoded(&RpcMessage::Hello(hello)),
        vec![0x0d, 0, 0, 0, 2, 0, 0, 0, 2, 0xaa, 0xbb, 1, 2, 3, 4, 5, 6, 0x80, 0, 0, 0]
    );
}

#[test]
fn hello_end_to_end() {
    let license = [0x10u8, 0x20, 0x30, 0x40, 0x50];
    let hello = RpcHello {
        protocol_version: 5,
        license_data: &license,
        license_id: [0xde, 0xad, 0xbe, 0xef, 0x00, 0x01],
        flags: 3,
    };
    let mut stream = Vec::new();
    RpcMessage::Hello(hello).write(&mut stream).unwrap();

    let buffer = read_packet(&stream).unwrap();
    assert_eq!(buffer.len() + 4, stream.len());
    match RpcMessage::deserialize(&buffer) {
        Ok(RpcMessage::Hello(back)) => {
            assert_eq!(back.protocol_version, 5);
            assert_eq!(back.license_data, &license[..]);
            assert_eq!(back.license_id, [0xde, 0xad, 0xbe, 0xef, 0x00, 0x01]);
            assert_eq!(back.flags, 3);
        },
        _ => panic!("not decoded as a handshake"),
    }
}

#[test]
fn pull_round_trip() {
    let pull = PullMetadata {
        flags: 1,
        keys: vec![10, 20, 0xffffffff],
        funcs: vec![
            PullMetadataFunc { flags: 0, hash: &[1; 16] },
            PullMetadataFunc { flags: 9, hash: &[] },
        ],
    };
    let bytes = encoded(&RpcMessage::PullMetadata(pull));
    assert_eq!(bytes[0], 0x0e);
    match RpcMessage::decode(&bytes) {
        Ok((RpcMessage::PullMetadata(back), left)) => {
            assert_eq!(left, 0);
            assert_eq!(back.flags, 1);
            assert_eq!(back.keys, vec![10, 20, 0xffffffff]);
            assert_eq!(back.funcs.len(), 2);
            assert_eq!(back.funcs[0].flags, 0);
            assert_eq!(back.funcs[0].hash, &[1u8; 16][..]);
            assert_eq!(back.funcs[1].flags, 9);
            assert!(back.funcs[1].hash.is_empty());
        },
        _ => panic!("not decoded as a pull request"),
    }
}

#[test]
fn pull_result_round_trip() {
    let pulled = PullMetadataResult {
        status: vec![0, 1],
        funcs: vec![PullMetadataResultFunc {
            name: "main",
            len: 120,
            data: &[4, 5, 6],
            popularity: 17,
        }],
    };
    let bytes = encoded(&RpcMessage::PullMetadataResult(pulled));
    assert_eq!(bytes[0], 0x0f);
    match RpcMessage::deserialize(&bytes) {
        Ok(RpcMessage::PullMetadataResult(back)) => {
            assert_eq!(back.status, vec![0, 1]);
            assert_eq!(back.funcs.len(), 1);
            assert_eq!(back.funcs[0].name, "main");
            assert_eq!(back.funcs[0].len, 120);
            assert_eq!(back.funcs[0].data, &[4u8, 5, 6][..]);
            assert_eq!(back.funcs[0].popularity, 17);
        },
        _ => panic!("not decoded as a pull result"),
    }
}

#[test]
fn push_round_trip() {
    let push = PushMetadata {
        flags: 2,
        idb_path: "/home/u/a.idb",
        file_path: "/bin/a",
        md5: [7; 16],
        hostname: "box",
        funcs: vec![
            PushMetadataFunc { name: "f", len: 1, data: &[1], flags: 0, hash: &[2; 16] },
            PushMetadataFunc { name: "g\u{e9}", len: 2, data: &[], flags: 5, hash: &[3; 16] },
        ],
        addresses: vec![0x0102030405060708, u64::MAX],
    };
    let bytes = encoded(&RpcMessage::PushMetadata(push));
    assert_eq!(bytes[0], 0x10);
    assert_eq!(&bytes[bytes.len() - 16..bytes.len() - 8], &[1, 2, 3, 4, 5, 6, 7, 8]);
    match RpcMessage::decode(&bytes) {
        Ok((RpcMessage::PushMetadata(back), left)) => {
            assert_eq!(left, 0);
            assert_eq!(back.flags, 2);
            assert_eq!(back.idb_path, "/home/u/a.idb");
            assert_eq!(back.file_path, "/bin/a");
            assert_eq!(back.md5, [7; 16]);
            assert_eq!(back.hostname, "box");
            assert_eq!(back.funcs.len(), 2);
            assert_eq!(back.funcs[0].name, "f");
            assert_eq!(back.funcs[0].len, 1);
            assert_eq!(back.funcs[0].data, &[1u8][..]);
            assert_eq!(back.funcs[0].flags, 0);
            assert_eq!(back.funcs[0].hash, &[2u8; 16][..]);
            assert_eq!(back.funcs[1].name, "g\u{e9}");
            assert_eq!(back.funcs[1].len, 2);
            assert!(back.funcs[1].data.is_empty());
            assert_eq!(back.funcs[1].flags, 5);
            assert_eq!(back.funcs[1].hash, &[3u8; 16][..]);
            assert_eq!(back.addresses, vec![0x0102030405060708, u64::MAX]);
        },
        _ => panic!("not decoded as a push request"),
    }
}

#[test]
fn push_result_round_trip() {
    let pushed = PushMetadataResult { status: vec![1, 0, 1] };
    let bytes = encoded(&RpcMessage::PushMetadataResult(pushed));
    assert_eq!(bytes, vec![0x11, 0, 0, 0, 3, 0, 0, 0, 1, 0, 0, 0, 0, 0, 0, 0, 1]);
    match RpcMessage::deserialize(&bytes) {
        Ok(RpcMessage::PushMetadataResult(back)) => assert_eq!(back.status, vec![1, 0, 1]),
        _ => panic!("not decoded as a push result"),
    }
}

#[test]
fn trailing_bytes_are_counted_not_refused() {
    let mut bytes = encoded(&RpcMessage::Fail(RpcFail { code: 1, message: "x" }));
    bytes.extend_from_slice(&[0xff, 0xfe, 0xfd]);
    match RpcMessage::decode(&bytes) {
        Ok((RpcMessage::Fail(back), left)) => {
            assert_eq!(back.code, 1);
            assert_eq!(back.message, "x");
            assert_eq!(left, 3);
        },
        _ => panic!("not decoded as a failure"),
    }
    assert!(matches!(RpcMessage::deserialize(&bytes), Ok(RpcMessage::Fail(_))));
}

#[test]
fn unknown_code_is_invalid_data() {
    assert!(matches!(RpcMessage::deserialize(&[0xff]), Err(Error::InvalidData)));
    assert!(matches!(RpcMessage::deserialize(&[0xff, 0, 0, 0, 0]), Err(Error::InvalidData)));
    assert!(matches!(RpcMessage::deserialize(&[0x09, 1, 2, 3, 4]), Err(Error::InvalidData)));
    assert!(matches!(RpcMessage::deserialize(&[0x12, 1, 2, 3, 4]), Err(Error::InvalidData)));
    assert!(matches!(RpcMessage::deserialize(&[0x00]), Err(Error::InvalidData)));
}

#[test]
fn unknown_code_in_a_frame_of_any_length() {
    // Too short and too long are refused on the header, anything between on
    // the code.
    for len in [0u32, 3, 4, 100, 50 * 1024, 50 * 1024 + 1, u32::MAX] {
        let mut stream = len.to_be_bytes().to_vec();
        stream.push(0xff);
        if len <= 50 * 1024 {
            stream.resize(5 + len as usize, 0);
        }
        let outcome = match read_packet(&stream) {
            Ok(buffer) => RpcMessage::deserialize(&buffer).map(|_| ()),
            Err(e) => Err(e),
        };
        assert!(matches!(outcome, Err(Error::InvalidData)));
    }
}

#[test]
fn empty_buffer_is_invalid_data() {
    assert!(matches!(RpcMessage::deserialize(&[]), Err(Error::InvalidData)));
}

#[test]
fn truncated_record_is_a_codec_error() {
    let bytes = encoded(&RpcMessage::Fail(RpcFail { code: 1, message: "hello" }));
    for cut in 1..bytes.len() {
        match RpcMessage::deserialize(&bytes[..cut]) {
            Err(Error::Serde(text)) => assert_eq!(text, "unexpected end of input"),
            _ => panic!("a record cut at {} was not refused", cut),
        }
    }
}

#[test]
fn count_beyond_the_buffer_is_a_codec_error() {
    // A push result that announces a million entries and holds one.
    let bytes = [0x11, 0x00, 0x0f, 0x42, 0x40, 0, 0, 0, 1];
    assert!(matches!(RpcMessage::deserialize(&bytes), Err(Error::Serde(_))));
}

#[test]
fn text_that_is_not_utf8() {
    let bytes = [0x0b, 0, 0, 0, 1, 0, 0, 0, 2, 0xc3, 0x28];
    match RpcMessage::deserialize(&bytes) {
        Err(Error::Utf8Error(e)) => assert_eq!(e.valid_up_to(), 0),
        _ => panic!("invalid text was not refused"),
    }
}

#[test]
fn text_length_is_checked_before_its_content() {
    let bytes = [0x0b, 0, 0, 0, 1, 0, 0, 0, 3, 0xc3, 0x28];
    assert!(matches!(RpcMessage::deserialize(&bytes), Err(Error::Serde(_))));
}

#[test]
fn write_frames_the_encoding() {
    let mut stream = Vec::new();
    RpcMessage::Fail(RpcFail { code: 2, message: "" }).write(&mut stream).unwrap();
    assert_eq!(stream, vec![0, 0, 0, 8, 0x0b, 0, 0, 0, 2, 0, 0, 0, 0]);
}

#[test]
fn serialize_appends() {
    let mut out = vec![1, 2, 3];
    RpcMessage::Okay(()).serialize(&mut out).unwrap();
    assert_eq!(out, vec![1, 2, 3, 0x0a]);
}

#[test]
fn oversized_message_is_refused() {
    // Seventy thousand functions that share one hash of 64 KiB: more than
    // four gigabytes once encoded, and almost nothing in memory.
    let hash = vec![0u8; 65536];
    let mut funcs = Vec::new();
    for i in 0..70_000u32 {
        funcs.push(PullMetadataFunc { flags: i, hash: &hash });
    }
    let message = RpcMessage::PullMetadata(PullMetadata { flags: 0, keys: vec![], funcs });

    let mut out = vec![9, 9];
    match message.serialize(&mut out) {
        Err(Error::Serde(text)) => assert_eq!(text, "value too large to encode"),
        _ => panic!("an oversized message was not refused"),
    }
    assert_eq!(out, vec![9, 9]);

    let mut stream = Vec::new();
    assert!(matches!(message.write(&mut stream), Err(Error::Serde(_))));
    assert!(stream.is_empty());
}
