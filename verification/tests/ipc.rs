use xodus::ipc::{
    decode_header, encode_frame, ping, ping_frame, runtime_dir, socket_path, transport, Transport,
    PROTO_MAGIC, XML_MAGIC,
};
use xodus::message::XodusMessageType;
use xodus::path::{join, join_text};

#[test]
fn frame_layout_is_magic_type_size_payload() {
    let frame = encode_frame(XML_MAGIC, 3, b"abc");
    assert_eq!(&frame[0..4], &XML_MAGIC.to_le_bytes());
    assert_eq!(&frame[4..6], &3u16.to_le_bytes());
    assert_eq!(&frame[6..8], &3u16.to_le_bytes());
    assert_eq!(&frame[8..], b"abc");
}

#[test]
fn a_frame_has_these_bytes() {
    assert_eq!(
        encode_frame(0x58445358, 0x0102, b"xy"),
        vec![0x58, 0x53, 0x44, 0x58, 0x02, 0x01, 0x02, 0x00, b'x', b'y']
    );
}

#[test]
fn frames_read_back() {
    for len in [0usize, 1, 255, 256, 65535] {
        let payload = vec![7u8; len];
        let frame = encode_frame(PROTO_MAGIC, 0xfffe, &payload);
        let header = decode_header(&frame).unwrap();
        assert_eq!(header.magic, PROTO_MAGIC);
        assert_eq!(header.msg_type, 0xfffe);
        assert_eq!(header.size as usize, len);
        assert_eq!(&frame[8..], payload.as_slice());
    }
}

#[test]
fn a_short_header_is_none() {
    assert_eq!(decode_header(&[0; 7]), None);
    assert!(decode_header(&[0; 8]).is_some());
}

#[test]
fn the_magic_tells_the_transport() {
    assert_eq!(transport(0x58445358), Some(Transport::Xml));
    assert_eq!(transport(0x58445350), Some(Transport::Proto));
    assert_eq!(transport(0), None);
}

#[test]
fn the_probe_is_a_ping() {
    assert_eq!(ping_frame(), encode_frame(XML_MAGIC, 1, b"xodus-ping"));
}

#[test]
fn only_the_echo_of_the_probe_is_a_pong() {
    assert_eq!(ping(XML_MAGIC, 2, b"xodus-ping"), Ok(()));
    let refused = Err("unexpected ping response".to_string());
    assert_eq!(ping(PROTO_MAGIC, 2, b"xodus-ping"), refused);
    assert_eq!(ping(XML_MAGIC, 5, b"xodus-ping"), refused);
    assert_eq!(ping(XML_MAGIC, 2, b"xodus-pong"), refused);
    assert_eq!(ping(XML_MAGIC, 2, b""), refused);
}

#[test]
fn the_socket_lies_in_the_runtime_directory() {
    let dir = b"/run/user/1000".to_vec();
    assert_eq!(runtime_dir(false, Some(dir.clone())), Some(dir.clone()));
    assert_eq!(
        socket_path(false, Some(dir.clone())),
        Some(b"/run/user/1000/xodus.sock".to_vec())
    );
    assert_eq!(socket_path(false, None), None);
    assert_eq!(runtime_dir(true, None), Some(b"/tmp".to_vec()));
    assert_eq!(socket_path(true, Some(dir)), Some(b"/tmp/xodus.sock".to_vec()));
}

#[test]
fn joining_adds_a_separator_where_there_is_none() {
    assert_eq!(join(b"/a", b"b"), b"/a/b");
    assert_eq!(join(b"/a/", b"b"), b"/a/b");
    assert_eq!(join(b"", b"b"), b"b");
    assert_eq!(join(b"/a", b"/b"), b"/b");
    assert_eq!(join(b"/a", b""), b"/a/");
    assert_eq!(join_text("/a", "b/c"), "/a/b/c");
    assert_eq!(join_text("/a", "/b"), "/b");
    assert_eq!(join_text("", "b"), "b");
    assert_eq!(join_text("a/", ""), "a/");
}

#[test]
fn message_codes_read_back() {
    for code in 0u16..8 {
        assert_eq!(XodusMessageType::from_code(code).code(), code);
    }
    assert_eq!(XodusMessageType::from_code(8), XodusMessageType::Unspecified);
    assert_eq!(XodusMessageType::from_code(65535), XodusMessageType::Unspecified);
    assert_eq!(XodusMessageType::ErrorResponse.code(), 5);
    assert_eq!(XodusMessageType::UserIdentityResponse.code(), 7);
}
