//! The frames of the service socket, and where the socket lives.
//!
//! A frame is, all integers little-endian, a `u32` magic, a `u16` message type,
//! a `u16` payload size, and the payload. A successful response has the
//! request's message type plus one; a failure is an `ErrorResponse`.

use vstd::prelude::*;
use vstd::string::*;

use crate::message::XodusMessageType;
use crate::path;

verus! {

broadcast use vstd::string::group_string_axioms;

/// The magic of the XML transport.
pub const XML_MAGIC: u32 = 0x58445358;

/// The magic of the protobuf transport, which is reserved.
pub const PROTO_MAGIC: u32 = 0x58445350;

/// A number below 65536 in two bytes, the low one first.
pub open spec fn le16(n: int) -> Seq<u8> {
    seq![(n % 256) as u8, (n / 256) as u8]
}

/// A number below 2^32 in four bytes, the low one first.
pub open spec fn le32(n: int) -> Seq<u8> {
    le16(n % 65536) + le16(n / 65536)
}

/// The number that two bytes hold, the low one first.
pub open spec fn from_le16(b: Seq<u8>) -> int {
    b[0] + 256 * b[1]
}

/// The number that four bytes hold, the low one first.
pub open spec fn from_le32(b: Seq<u8>) -> int {
    from_le16(b.take(2)) + 65536 * from_le16(b.skip(2))
}

/// The most bytes that a payload can have: the size field has sixteen bits.
pub const MAX_PAYLOAD: usize = 65535;

/// The bytes of a frame around a payload that fits.
pub open spec fn frame(magic: u32, msg_type: u16, payload: Seq<u8>) -> Seq<u8> {
    le32(magic as int) + le16(msg_type as int) + le16(payload.len() as int) + payload
}

/// What stands in front of the payload.
#[derive(Clone, Copy, Debug, PartialEq, Eq, Structural)]
pub struct FrameHeader {
    pub magic: u32,
    pub msg_type: u16,
    pub size: u16,
}

/// The header that eight bytes hold.
pub open spec fn header_of(bytes: Seq<u8>) -> FrameHeader {
    FrameHeader {
        magic: from_le32(bytes.take(4)) as u32,
        msg_type: from_le16(bytes.subrange(4, 6)) as u16,
        size: from_le16(bytes.subrange(6, 8)) as u16,
    }
}

fn push_le16(buffer: &mut Vec<u8>, n: u16)
    ensures
        final(buffer)@ == old(buffer)@ + le16(n as int),
{
    buffer.push((n % 256) as u8);
    buffer.push((n / 256) as u8);
    assert(buffer@ =~= old(buffer)@ + le16(n as int));
}

/// The frame around a payload, whose length the size field must be able to hold.
pub fn encode_frame(magic: u32, msg_type: u16, payload: &[u8]) -> (r: Vec<u8>)
    requires
        payload@.len() <= MAX_PAYLOAD,
    ensures
        r@ == frame(magic, msg_type, payload@),
        header_of(r@).size == payload@.len(),
{
    let mut buffer: Vec<u8> = Vec::new();
    push_le16(&mut buffer, (magic % 65536) as u16);
    push_le16(&mut buffer, (magic / 65536) as u16);
    push_le16(&mut buffer, msg_type);
    push_le16(&mut buffer, payload.len() as u16);
    path::append_bytes(&mut buffer, payload);
    assert(buffer@ =~= frame(magic, msg_type, payload@));
    proof {
        law_frame_reads_back(magic, msg_type, payload@);
    }
    buffer
}

/// The header at the front of the bytes, where there are enough of them.
pub fn decode_header(bytes: &[u8]) -> (r: Option<FrameHeader>)
    ensures
        match r {
            Some(header) => bytes@.len() >= 8 && header == header_of(bytes@),
            None => bytes@.len() < 8,
        },
{
    if bytes.len() < 8 {
        return None;
    }
    let low: u32 = bytes[0] as u32 + 256 * (bytes[1] as u32);
    let high: u32 = bytes[2] as u32 + 256 * (bytes[3] as u32);
    let header = FrameHeader {
        magic: low + 65536 * high,
        msg_type: bytes[4] as u16 + 256 * (bytes[5] as u16),
        size: bytes[6] as u16 + 256 * (bytes[7] as u16),
    };
    Some(header)
}

/// Whoever reads a frame gets the magic and the message type that went into
/// it, the length of the payload, and then the payload.
pub proof fn law_frame_reads_back(magic: u32, msg_type: u16, payload: Seq<u8>)
    requires
        payload.len() <= MAX_PAYLOAD,
    ensures
        frame(magic, msg_type, payload).len() == 8 + payload.len(),
        header_of(frame(magic, msg_type, payload)).magic == magic,
        header_of(frame(magic, msg_type, payload)).msg_type == msg_type,
        header_of(frame(magic, msg_type, payload)).size == payload.len(),
        frame(magic, msg_type, payload).skip(8) == payload,
{
    let f = frame(magic, msg_type, payload);
    assert(f.take(4) =~= le32(magic as int));
    assert(f.subrange(4, 6) =~= le16(msg_type as int));
    assert(f.subrange(6, 8) =~= le16(payload.len() as int));
    assert(le32(magic as int).take(2) =~= le16(magic as int % 65536));
    assert(le32(magic as int).skip(2) =~= le16(magic as int / 65536));
    assert(f.skip(8) =~= payload);
}

/// The transport that a frame asks for.
#[derive(Clone, Copy, Debug, PartialEq, Eq, Structural)]
pub enum Transport {
    Xml,
    Proto,
}

/// The transport of a magic; a frame with any other magic is malformed.
pub fn transport(magic: u32) -> (r: Option<Transport>)
    ensures
        r == Some(Transport::Xml) <==> magic == XML_MAGIC,
        r == Some(Transport::Proto) <==> magic == PROTO_MAGIC,
        r is None <==> magic != XML_MAGIC && magic != PROTO_MAGIC,
{
    if magic == XML_MAGIC {
        Some(Transport::Xml)
    } else if magic == PROTO_MAGIC {
        Some(Transport::Proto)
    } else {
        None
    }
}

/// The payload of the liveness probe.
pub open spec fn ping_payload() -> Seq<u8> {
    path::bytes_of("xodus-ping"@)
}

/// The payload of the liveness probe has ten bytes.
pub proof fn lemma_ping_payload_fits()
    ensures
        ping_payload().len() == 10,
{
    reveal_strlit("xodus-ping");
    vstd::utf8::is_ascii_chars_encode_utf8("xodus-ping"@);
}

/// The frame of the liveness probe.
pub fn ping_frame() -> (r: Vec<u8>)
    ensures
        r@ == frame(XML_MAGIC, XodusMessageType::Ping.spec_code(), ping_payload()),
{
    proof {
        lemma_ping_payload_fits();
    }
    encode_frame(XML_MAGIC, XodusMessageType::Ping.code(), "xodus-ping".as_bytes())
}

/// A frame is the answer that the liveness probe expects: a `Pong` over the XML
/// transport that echoes the payload.
pub open spec fn is_pong(magic: u32, msg_type: u16, payload: Seq<u8>) -> bool {
    magic == XML_MAGIC && msg_type == XodusMessageType::Pong.spec_code() && payload
        == ping_payload()
}

/// What the liveness probe makes of the frame that answers it: success means
/// that a live service is listening.
pub fn ping(magic: u32, msg_type: u16, payload: &[u8]) -> (r: Result<(), String>)
    ensures
        r is Ok <==> is_pong(magic, msg_type, payload@),
        r is Err ==> r->Err_0@ == "unexpected ping response"@,
{
    if magic == XML_MAGIC && msg_type == XodusMessageType::Pong.code() && path::same_bytes(
        payload,
        "xodus-ping".as_bytes(),
    ) {
        Ok(())
    } else {
        Err("unexpected ping response".to_owned())
    }
}

/// What a path holds, where there is one.
pub open spec fn path_view(path: Option<Vec<u8>>) -> Option<Seq<u8>> {
    match path {
        Some(path) => Some(path@),
        None => None,
    }
}

/// The directory of the service socket.
pub open spec fn runtime_dir_of(macos: bool, xdg_runtime_dir: Option<Seq<u8>>) -> Option<Seq<u8>> {
    if macos {
        Some(path::bytes_of("/tmp"@))
    } else {
        xdg_runtime_dir
    }
}

/// The service socket.
pub open spec fn socket_path_of(macos: bool, xdg_runtime_dir: Option<Seq<u8>>) -> Option<Seq<u8>> {
    match runtime_dir_of(macos, xdg_runtime_dir) {
        Some(dir) => Some(path::joined(dir, path::bytes_of("xodus.sock"@))),
        None => None,
    }
}

/// The directory that the service socket lives in: `/tmp` on macOS, elsewhere
/// what the environment gives as the runtime directory. The service, which
/// binds, and its clients, which connect, must agree on it.
pub fn runtime_dir(macos: bool, xdg_runtime_dir: Option<Vec<u8>>) -> (r: Option<Vec<u8>>)
    ensures
        path_view(r) == runtime_dir_of(macos, path_view(xdg_runtime_dir)),
{
    if macos {
        Some(path::copy_bytes("/tmp".as_bytes()))
    } else {
        xdg_runtime_dir
    }
}

/// The path of the service socket.
pub fn socket_path(macos: bool, xdg_runtime_dir: Option<Vec<u8>>) -> (r: Option<Vec<u8>>)
    ensures
        path_view(r) == socket_path_of(macos, path_view(xdg_runtime_dir)),
{
    match runtime_dir(macos, xdg_runtime_dir) {
        Some(dir) => Some(path::join(dir.as_slice(), "xodus.sock".as_bytes())),
        None => None,
    }
}

/// The bytes of a frame, one by one: the magic in four bytes, the type in two and
/// the number of payload bytes in two, each with the low byte first, and then the
/// payload.
pub open spec fn is_frame(bytes: Seq<u8>, magic: int, msg_type: int, payload: Seq<u8>) -> bool {
    &&& bytes.len() == 8 + payload.len()
    &&& bytes[0] + 256 * bytes[1] + 65536 * bytes[2] + 16777216 * bytes[3] == magic
    &&& bytes[4] + 256 * bytes[5] == msg_type
    &&& bytes[6] + 256 * bytes[7] == payload.len()
    &&& forall|i: int| 0 <= i < payload.len() ==> bytes[8 + i] == #[trigger] payload[i]
}

/// A frame is made byte by byte of what goes into it.
pub proof fn law_frame_is_byte_by_byte(magic: u32, msg_type: u16, payload: Seq<u8>)
    requires
        payload.len() <= 65535,
    ensures
        is_frame(frame(magic, msg_type, payload), magic as int, msg_type as int, payload),
{
    let f = frame(magic, msg_type, payload);
    let n = payload.len() as int;
    let low = magic as int % 65536;
    let high = magic as int / 65536;
    assert(f[0] == (low % 256) as u8 && f[1] == (low / 256) as u8);
    assert(f[2] == (high % 256) as u8 && f[3] == (high / 256) as u8);
    assert(f[4] == (msg_type as int % 256) as u8 && f[5] == (msg_type as int / 256) as u8);
    assert(f[6] == (n % 256) as u8 && f[7] == (n / 256) as u8);
    assert forall|i: int| 0 <= i < payload.len() implies f[8 + i] == #[trigger] payload[i] by {}
}

/// A header is read byte by byte, the low byte of each field first.
pub proof fn law_header_is_read_byte_by_byte(b: Seq<u8>)
    requires
        b.len() >= 8,
    ensures
        header_of(b).magic == b[0] + 256 * b[1] + 65536 * b[2] + 16777216 * b[3],
        header_of(b).msg_type == b[4] + 256 * b[5],
        header_of(b).size == b[6] + 256 * b[7],
{
    let m = b.take(4);
    assert(m.take(2)[0] == b[0] && m.take(2)[1] == b[1]);
    assert(m.skip(2)[0] == b[2] && m.skip(2)[1] == b[3]);
    assert(b.subrange(4, 6)[0] == b[4] && b.subrange(4, 6)[1] == b[5]);
    assert(b.subrange(6, 8)[0] == b[6] && b.subrange(6, 8)[1] == b[7]);
}

/// The probe, and the one answer that it accepts: the same ten bytes, as type 1 and
/// back as type 2.
pub proof fn law_probe_is_ten_bytes(magic: u32, msg_type: u16, payload: Seq<u8>)
    ensures
        ping_payload() == seq![120u8, 111, 100, 117, 115, 45, 112, 105, 110, 103],
        is_pong(magic, msg_type, payload) <==> magic == 0x58445358 && msg_type == 2 && payload
            == seq![120u8, 111, 100, 117, 115, 45, 112, 105, 110, 103],
{
    reveal_strlit("xodus-ping");
    path::lemma_ascii_bytes("xodus-ping"@);
    assert(ping_payload() =~= seq![120u8, 111, 100, 117, 115, 45, 112, 105, 110, 103]);
}

/// Where the socket lives: `xodus.sock` in the runtime directory that was given,
/// behind one slash unless the directory is empty or ends with one, and in `/tmp` on
/// macOS, whatever was given there.
pub proof fn law_socket_lives_in_the_runtime_directory(
    given: Option<Seq<u8>>,
    directory: Seq<u8>,
)
    ensures
        directory.len() > 0 && directory.last() != 47 ==> socket_path_of(false, Some(directory))
            == Some(directory + seq![47u8, 120, 111, 100, 117, 115, 46, 115, 111, 99, 107]),
        directory.len() == 0 || directory.last() == 47 ==> socket_path_of(false, Some(directory))
            == Some(directory + seq![120u8, 111, 100, 117, 115, 46, 115, 111, 99, 107]),
        socket_path_of(false, None) is None,
        socket_path_of(true, given) == Some(
            seq![47u8, 116, 109, 112, 47, 120, 111, 100, 117, 115, 46, 115, 111, 99, 107],
        ),
        runtime_dir_of(false, given) == given,
        runtime_dir_of(true, given) == Some(seq![47u8, 116, 109, 112]),
{
    reveal_strlit("xodus.sock");
    reveal_strlit("/tmp");
    path::lemma_ascii_bytes("xodus.sock"@);
    path::lemma_ascii_bytes("/tmp"@);
    let name = path::bytes_of("xodus.sock"@);
    let tmp = path::bytes_of("/tmp"@);
    assert(name =~= seq![120u8, 111, 100, 117, 115, 46, 115, 111, 99, 107]);
    assert(tmp =~= seq![47u8, 116, 109, 112]);
    assert(directory.push(0x2f) + name =~= directory + seq![
        47u8,
        120,
        111,
        100,
        117,
        115,
        46,
        115,
        111,
        99,
        107,
    ]);
    assert(tmp.push(0x2f) + name =~= seq![
        47u8,
        116,
        109,
        112,
        47,
        120,
        111,
        100,
        117,
        115,
        46,
        115,
        111,
        99,
        107,
    ]);
}

} // verus!
