use huidu_player::protocol::server::{
    decode_packet, handle_packet, make_packet, sdk_answer, DropReason, FrameError, PacketAction,
    CMD_FILE_CONTENT_ASK, CMD_FILE_END_ASK, CMD_FILE_START_ASK, CMD_SDK_CMD_ASK,
};
use huidu_player::protocol::session::Session;

fn session() -> Session {
    Session::with_guid("s".to_string())
}

#[test]
fn heartbeat_is_answered() {
    let request = [0x04u8, 0x00, 0x5f, 0x00];
    let packet = decode_packet(&request[..2 + 2]).unwrap_err();
    assert_eq!(packet, FrameError::Truncated);
    let full = [0x02u8, 0x00, 0x5f, 0x00];
    let packet = decode_packet(&full).unwrap();
    assert_eq!(packet.cmd, 0x005f);
    assert!(packet.body.is_empty());
    let mut s = session();
    match handle_packet(&mut s, 0x005f, &[]) {
        PacketAction::Reply(reply) => assert_eq!(reply, vec![0x02, 0x00, 0x60, 0x00]),
        other => panic!("unexpected action {:?}", other),
    }
}

#[test]
fn heartbeat_with_body_is_answered_the_same() {
    let request = [0x04u8, 0x00, 0x5f, 0x00, 0xaa, 0xbb];
    let packet = decode_packet(&request).unwrap();
    assert_eq!(packet.cmd, 0x005f);
    assert_eq!(packet.body, vec![0xaa, 0xbb]);
    assert_eq!(packet.consumed, 6);
    let mut s = session();
    match handle_packet(&mut s, packet.cmd, &packet.body) {
        PacketAction::Reply(reply) => assert_eq!(reply, vec![0x02, 0x00, 0x60, 0x00]),
        other => panic!("unexpected action {:?}", other),
    }
}

#[test]
fn version_handshake_is_answered() {
    let request = [0x02u8, 0x00, 0x01, 0x20];
    let packet = decode_packet(&request).unwrap();
    assert_eq!(packet.cmd, 0x2001);
    let mut s = session();
    match handle_packet(&mut s, packet.cmd, &packet.body) {
        PacketAction::Reply(reply) => {
            assert_eq!(reply, vec![0x06, 0x00, 0x02, 0x20, 0x05, 0x00, 0x00, 0x01])
        }
        other => panic!("unexpected action {:?}", other),
    }
}

#[test]
fn framing_round_trip() {
    for len in [0usize, 1, 2, 255, 256, 9213, 9214] {
        let body: Vec<u8> = (0..len).map(|i| (i * 7 % 251) as u8).collect();
        let packet = make_packet(0x8003, &body);
        assert_eq!(packet.len(), len + 4);
        let decoded = decode_packet(&packet).unwrap();
        assert_eq!(decoded.cmd, 0x8003);
        assert_eq!(decoded.body, body);
        assert_eq!(decoded.consumed, len + 4);
    }
}

#[test]
fn length_out_of_range_is_refused() {
    assert_eq!(decode_packet(&[0x01, 0x00, 0x5f, 0x00]).unwrap_err(), FrameError::BadLength);
    assert_eq!(decode_packet(&[0x00, 0x00]).unwrap_err(), FrameError::BadLength);
    // 9217 = 0x2401
    assert_eq!(decode_packet(&[0x01, 0x24, 0x5f, 0x00]).unwrap_err(), FrameError::BadLength);
    // 9216 = 0x2400 is the largest length, but the bytes are not all there
    assert_eq!(decode_packet(&[0x00, 0x24, 0x5f, 0x00]).unwrap_err(), FrameError::Truncated);
    assert_eq!(decode_packet(&[0x05]).unwrap_err(), FrameError::Truncated);
    let body = vec![7u8; 9215];
    let packet = make_packet(1, &body);
    assert_eq!(decode_packet(&packet).unwrap_err(), FrameError::BadLength);
}

#[test]
fn two_packets_in_a_stream_are_taken_one_by_one() {
    let mut stream = make_packet(0x005f, &[]);
    stream.extend_from_slice(&make_packet(0x2001, &[1, 2, 3]));
    let first = decode_packet(&stream).unwrap();
    assert_eq!((first.cmd, first.consumed), (0x005f, 4));
    let second = decode_packet(&stream[first.consumed..]).unwrap();
    assert_eq!(second.cmd, 0x2001);
    assert_eq!(second.body, vec![1, 2, 3]);
}

fn command_packet(total: u32, index: u32, chunk: &[u8]) -> Vec<u8> {
    let mut body = Vec::new();
    body.extend_from_slice(&total.to_le_bytes());
    body.extend_from_slice(&index.to_le_bytes());
    body.extend_from_slice(chunk);
    body
}

#[test]
fn command_in_chunks_is_handed_out_when_complete() {
    let xml = "<sdk guid=\"s\"><in method=\"GetFiles\"/></sdk>";
    let bytes = xml.as_bytes();
    let mut s = session();
    let a = handle_packet(&mut s, CMD_SDK_CMD_ASK, &command_packet(bytes.len() as u32, 0, &bytes[..10]));
    assert!(matches!(a, PacketAction::Nothing));
    assert!(!s.xml_complete());
    let b = handle_packet(&mut s, CMD_SDK_CMD_ASK, &command_packet(bytes.len() as u32, 1, &bytes[10..30]));
    assert!(matches!(b, PacketAction::Nothing));
    let c = handle_packet(&mut s, CMD_SDK_CMD_ASK, &command_packet(bytes.len() as u32, 2, &bytes[30..]));
    match c {
        PacketAction::Dispatch(text) => assert_eq!(text, xml),
        other => panic!("unexpected action {:?}", other),
    }
    // the reassembly starts over
    assert!(s.xml_complete());
    assert!(s.take_xml().is_empty());
}

#[test]
fn command_with_broken_text_is_repaired() {
    let mut s = session();
    let chunk = [b'<', 0xff, b'>'];
    match handle_packet(&mut s, CMD_SDK_CMD_ASK, &command_packet(3, 0, &chunk)) {
        PacketAction::Dispatch(text) => assert_eq!(text, "<\u{fffd}>"),
        other => panic!("unexpected action {:?}", other),
    }
}

#[test]
fn malformed_packets_are_dropped() {
    let mut s = session();
    assert!(matches!(
        handle_packet(&mut s, CMD_SDK_CMD_ASK, &[1, 2, 3]),
        PacketAction::Dropped(DropReason::CommandTooShort)
    ));
    assert!(matches!(
        handle_packet(&mut s, CMD_SDK_CMD_ASK, &command_packet(0x0100_0001, 0, b"x")),
        PacketAction::Dropped(DropReason::CommandTooLong)
    ));
    assert!(matches!(
        handle_packet(&mut s, CMD_FILE_START_ASK, &[0u8; 41]),
        PacketAction::Dropped(DropReason::FileStartTooShort)
    ));
    assert!(matches!(
        handle_packet(&mut s, 0x1234, &[]),
        PacketAction::Dropped(DropReason::UnknownCommand)
    ));
}

fn file_start(name: &str, size: u64) -> Vec<u8> {
    let mut body = Vec::new();
    body.extend_from_slice(b"0123456789abcdef0123456789abcdef");
    body.extend_from_slice(&size.to_le_bytes());
    body.extend_from_slice(&3u16.to_le_bytes());
    body.extend_from_slice(name.as_bytes());
    body.extend_from_slice(&[0, 0, 0]);
    body
}

#[test]
fn file_transfer_delivers_the_file() {
    let n = 20_000usize;
    let content: Vec<u8> = (0..n).map(|i| (i % 253) as u8).collect();
    let mut s = session();
    match handle_packet(&mut s, CMD_FILE_START_ASK, &file_start("logo.png", n as u64)) {
        PacketAction::Reply(reply) => assert_eq!(
            reply,
            vec![14, 0, 0x02, 0x80, 0, 0, 0, 0, 0, 0, 0, 0, 0, 0, 0, 0]
        ),
        other => panic!("unexpected action {:?}", other),
    }
    let mut chunks = 0;
    for chunk in content.chunks(9200) {
        assert!(matches!(handle_packet(&mut s, CMD_FILE_CONTENT_ASK, chunk), PacketAction::Nothing));
        chunks += 1;
    }
    assert_eq!(chunks, (n + 9199) / 9200);
    match handle_packet(&mut s, CMD_FILE_END_ASK, &[]) {
        PacketAction::SaveFile { filename, data, reply } => {
            assert_eq!(filename, "logo.png");
            assert_eq!(data.len(), n);
            assert_eq!(data, content);
            assert_eq!(reply, vec![6, 0, 0x06, 0x80, 0, 0, 0, 0]);
        }
        other => panic!("unexpected action {:?}", other),
    }
    // a second end finds no transfer
    match handle_packet(&mut s, CMD_FILE_END_ASK, &[]) {
        PacketAction::Reply(reply) => assert_eq!(reply, vec![6, 0, 0x06, 0x80, 0, 0, 0, 0]),
        other => panic!("unexpected action {:?}", other),
    }
}

#[test]
fn file_transfer_takes_no_data_beyond_its_size_and_one_chunk() {
    let mut s = session();
    handle_packet(&mut s, CMD_FILE_START_ASK, &file_start("a.bin", 10));
    handle_packet(&mut s, CMD_FILE_CONTENT_ASK, &[1u8; 8]);
    handle_packet(&mut s, CMD_FILE_CONTENT_ASK, &[2u8; 8]);
    handle_packet(&mut s, CMD_FILE_CONTENT_ASK, &[3u8; 8]);
    match handle_packet(&mut s, CMD_FILE_END_ASK, &[]) {
        PacketAction::SaveFile { data, .. } => assert_eq!(data.len(), 16),
        other => panic!("unexpected action {:?}", other),
    }
}

#[test]
fn content_without_transfer_is_ignored() {
    let mut s = session();
    assert!(matches!(handle_packet(&mut s, CMD_FILE_CONTENT_ASK, &[1, 2, 3]), PacketAction::Nothing));
    assert!(s.complete_file_transfer().is_none());
}

#[test]
fn sdk_answer_carries_length_flags_and_reply() {
    let packet = sdk_answer("<a/>");
    assert_eq!(packet, vec![14, 0, 0x04, 0x20, 4, 0, 0, 0, 0, 0, 0, 0, b'<', b'a', b'/', b'>']);
}

#[test]
fn file_start_declares_the_transfer() {
    let mut s = session();
    let mut body = Vec::new();
    body.extend_from_slice(b"d41d8cd98f00b204e9800998ecf8427e");
    body.extend_from_slice(&0x0102_0304_0506_0708u64.to_le_bytes());
    body.extend_from_slice(&0xbeefu16.to_le_bytes());
    body.extend_from_slice("caf\u{e9}.png\0\0".as_bytes());
    assert!(matches!(handle_packet(&mut s, CMD_FILE_START_ASK, &body), PacketAction::Reply(_)));
    let t = s.complete_file_transfer().unwrap();
    assert_eq!(t.md5, "d41d8cd98f00b204e9800998ecf8427e");
    assert_eq!(t.expected_size, 0x0102_0304_0506_0708);
    assert_eq!(t.file_type, 0xbeef);
    assert_eq!(t.filename, "caf\u{e9}.png");
    assert!(t.data.is_empty());
    // a name of NUL bytes only is empty
    let mut body = vec![b'0'; 42];
    body.extend_from_slice(&[0, 0, 0, 0]);
    handle_packet(&mut s, CMD_FILE_START_ASK, &body);
    assert_eq!(s.complete_file_transfer().unwrap().filename, "");
}
