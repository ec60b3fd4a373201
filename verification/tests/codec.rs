use chat_cafe::remote::codec::{CodecError, RemotePacketCodec, MAX_FRAME_LENGTH};
use chat_cafe::remote::packet::{ClientMessage, ClientRemotePacket, ServerMessage, ServerRemotePacket, ServerCommand};

#[test]
fn encode_writes_big_endian_length_then_payload() {
    let codec = RemotePacketCodec::new();
    let mut dst = vec![9u8];
    codec.encode(&[1, 2, 3], &mut dst).unwrap();
    assert_eq!(dst, vec![9, 0, 0, 0, 3, 1, 2, 3]);
    let mut dst = Vec::new();
    codec.encode(&[], &mut dst).unwrap();
    assert_eq!(dst, vec![0, 0, 0, 0]);
}

#[test]
fn encode_refuses_oversized_payload() {
    let codec = RemotePacketCodec::new();
    let big = vec![0u8; MAX_FRAME_LENGTH + 1];
    let mut dst = vec![1u8];
    assert_eq!(codec.encode(&big, &mut dst), Err(CodecError::FrameTooLarge));
    assert_eq!(dst, vec![1u8]);
    let edge = vec![7u8; MAX_FRAME_LENGTH];
    let mut dst = Vec::new();
    codec.encode(&edge, &mut dst).unwrap();
    assert_eq!(&dst[..4], &[0, 0x80, 0, 0]);
    assert_eq!(dst.len(), MAX_FRAME_LENGTH + 4);
}

#[test]
fn decode_gives_back_what_encode_wrote() {
    let codec = RemotePacketCodec::new();
    let mut buf = Vec::new();
    codec.encode(b"first", &mut buf).unwrap();
    codec.encode(b"second", &mut buf).unwrap();
    buf.extend_from_slice(&[0, 0]);
    assert_eq!(codec.decode(&mut buf), Ok(Some(b"first".to_vec())));
    assert_eq!(codec.decode(&mut buf), Ok(Some(b"second".to_vec())));
    assert_eq!(buf, vec![0, 0]);
    assert_eq!(codec.decode(&mut buf), Ok(None));
    assert_eq!(buf, vec![0, 0]);
}

#[test]
fn decode_waits_for_a_whole_frame() {
    let codec = RemotePacketCodec::new();
    let mut buf = vec![0, 0, 0, 5, b'a', b'b'];
    assert_eq!(codec.decode(&mut buf), Ok(None));
    assert_eq!(buf, vec![0, 0, 0, 5, b'a', b'b']);
    buf.extend_from_slice(b"cde");
    assert_eq!(codec.decode(&mut buf), Ok(Some(b"abcde".to_vec())));
    assert!(buf.is_empty());
}

#[test]
fn decode_refuses_oversized_length() {
    let codec = RemotePacketCodec::new();
    let mut buf = vec![0, 0x80, 0, 1, 1, 2];
    assert_eq!(codec.decode(&mut buf), Err(CodecError::FrameTooLarge));
    assert_eq!(buf, vec![0, 0x80, 0, 1, 1, 2]);
}

#[test]
fn packets_take_the_message_given() {
    let p = ServerRemotePacket::new(ServerMessage::Command(ServerCommand::Ping(5)));
    assert!(matches!(p.message, ServerMessage::Command(ServerCommand::Ping(5))));
    assert!(p.timestamp > 1_600_000_000_000);
    let q = ClientRemotePacket::new(ClientMessage::Pong(5));
    assert!(matches!(q.message, ClientMessage::Pong(5)));
}
