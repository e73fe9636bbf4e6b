use bytes::BytesMut;
use push_receiver::codec::{McsCodec, McsMessage, MessageKind};
use push_receiver::error::Error;
use push_receiver::proto::{
    Close, DataMessageStanza, HeartbeatAck, HeartbeatPing, IqStanza, LoginRequest, LoginResponse,
    StreamErrorStanza,
};

fn all_messages() -> Vec<McsMessage> {
    vec![
        McsMessage::HeartbeatPing(HeartbeatPing::default()),
        McsMessage::HeartbeatAck(HeartbeatAck::default()),
        McsMessage::LoginRequest(LoginRequest::default()),
        McsMessage::LoginResponse(LoginResponse::default()),
        McsMessage::Close(Close::default()),
        McsMessage::IqStanza(IqStanza::default()),
        McsMessage::DataMessageStanza(DataMessageStanza::default()),
        McsMessage::StreamErrorStanza(StreamErrorStanza::default()),
    ]
}

fn written(message: &McsMessage, body: &[u8]) -> Vec<u8> {
    let mut out = BytesMut::new();
    McsCodec::new().encode(message, body, &mut out);
    out.to_vec()
}

fn close() -> McsMessage {
    McsMessage::Close(Close::default())
}

#[test]
fn tags_of_messages() {
    let tags: Vec<u8> = all_messages().iter().map(|message| message.tag()).collect();
    assert_eq!(tags, vec![0, 1, 2, 3, 4, 7, 8, 10]);
    for message in all_messages() {
        assert_eq!(MessageKind::from_tag(message.tag()), Some(message.kind()));
    }
    for tag in [5u8, 6, 9, 11, 255] {
        assert_eq!(MessageKind::from_tag(tag), None);
    }
}

#[test]
fn login_request_opens_the_stream() {
    let login = McsMessage::LoginRequest(LoginRequest::default());
    assert_eq!(written(&login, &[7, 8]), vec![41, 2, 2, 7, 8]);
    assert_eq!(written(&close(), &[7, 8]), vec![4, 2, 7, 8]);
}

#[test]
fn frame_is_appended() {
    let mut out = BytesMut::from(&[1u8, 2][..]);
    McsCodec::new().encode(&close(), &[], &mut out);
    assert_eq!(out.to_vec(), vec![1, 2, 4, 0]);
}

#[test]
fn long_bodies_have_long_sizes() {
    let bytes = written(&close(), &vec![5u8; 300]);
    assert_eq!(bytes.len(), 303);
    assert_eq!(&bytes[..4], &[4, 0xAC, 0x02, 5]);
    let bytes = written(&close(), &vec![5u8; 128]);
    assert_eq!(&bytes[..4], &[4, 0x80, 0x01, 5]);
    let bytes = written(&close(), &vec![5u8; 127]);
    assert_eq!(&bytes[..3], &[4, 0x7F, 5]);
}

#[test]
fn session_is_read_back_from_single_bytes() {
    let mut stream = Vec::new();
    let login = McsMessage::LoginRequest(LoginRequest::default());
    stream.extend(written(&login, &[1, 2, 3]));
    for message in all_messages() {
        if message.kind() != MessageKind::LoginRequest {
            stream.extend(written(&message, &vec![9u8; 200]));
        }
    }
    let mut codec = McsCodec::new();
    let mut src = BytesMut::new();
    let mut found = Vec::new();
    for byte in stream {
        src.extend_from_slice(&[byte]);
        while let Some(frame) = codec.decode(&mut src).unwrap() {
            found.push((frame.kind, frame.body.to_vec()));
        }
    }
    assert!(src.is_empty());
    assert_eq!(found.len(), 8);
    assert_eq!(found[0], (MessageKind::LoginRequest, vec![1, 2, 3]));
    assert_eq!(found[1], (MessageKind::HeartbeatPing, vec![9u8; 200]));
    assert_eq!(found[7], (MessageKind::StreamErrorStanza, vec![9u8; 200]));
}

#[test]
fn frames_of_other_kinds_are_passed_over() {
    let mut codec = McsCodec::default();
    let mut src = BytesMut::from(&[38u8, 5, 2, 1, 1, 99, 0, 4, 1, 6, 3][..]);
    let frame = codec.decode(&mut src).unwrap().unwrap();
    assert_eq!(frame.kind, MessageKind::Close);
    assert_eq!(frame.body.to_vec(), vec![6]);
    assert_eq!(src.to_vec(), vec![3]);
}

#[test]
fn versions() {
    for version in [38u8, 41, 42, 255] {
        let mut src = BytesMut::from(&[version, 4, 0][..]);
        assert!(McsCodec::new().decode(&mut src).unwrap().is_some());
    }
    for version in [0u8, 37, 39, 40] {
        let mut src = BytesMut::from(&[version, 4, 0][..]);
        match McsCodec::new().decode(&mut src) {
            Err(Error::Protocol(text)) => {
                assert_eq!(text, format!("Invalid version: {version}"));
            }
            _ => panic!("version {version} was understood"),
        }
        assert_eq!(src.len(), 3);
    }
}

#[test]
fn refused_version_stays_refused() {
    let mut codec = McsCodec::new();
    let mut src = BytesMut::from(&[40u8][..]);
    assert!(codec.decode(&mut src).is_err());
    src.extend_from_slice(&[41, 4, 0]);
    assert!(codec.decode(&mut src).is_err());
    assert_eq!(src.to_vec(), vec![40, 41, 4, 0]);
}

#[test]
fn incomplete_frames_wait() {
    let mut codec = McsCodec::new();
    let mut src = BytesMut::new();
    assert!(codec.decode(&mut src).unwrap().is_none());
    src.extend_from_slice(&[41, 8, 0x82]);
    assert!(codec.decode(&mut src).unwrap().is_none());
    assert_eq!(src.to_vec(), vec![0x82]);
    src.extend_from_slice(&[0x00, 1]);
    assert!(codec.decode(&mut src).unwrap().is_none());
    src.extend_from_slice(&[2]);
    let frame = codec.decode(&mut src).unwrap().unwrap();
    assert_eq!(frame.kind, MessageKind::DataMessageStanza);
    assert_eq!(frame.body.to_vec(), vec![1, 2]);
}

#[test]
fn sizes_of_up_to_five_bytes() {
    let mut src = BytesMut::from(&[0x96u8, 0x01, 7][..]);
    assert_eq!(McsCodec::decode_varint(&mut src), Some(150));
    assert_eq!(src.to_vec(), vec![7]);
    let mut src = BytesMut::from(&[0xFFu8, 0xFF, 0xFF, 0xFF, 0x07][..]);
    assert_eq!(McsCodec::decode_varint(&mut src), Some(0x7FFF_FFFF));
    let mut src = BytesMut::from(&[0x80u8, 0x80, 0x80, 0x80, 0x80, 0x01][..]);
    assert_eq!(McsCodec::decode_varint(&mut src), None);
    assert_eq!(src.len(), 6);
    let mut src = BytesMut::from(&[0x80u8][..]);
    assert_eq!(McsCodec::decode_varint(&mut src), None);
    assert_eq!(src.len(), 1);
}

#[test]
fn error_messages() {
    assert_eq!(
        Error::Protocol("x".to_string()).message(),
        "MCS Protocol error: x"
    );
    assert_eq!(Error::Crypto("x".to_string()).message(), "Crypto error: x");
    assert_eq!(
        Error::Registration("x".to_string()).message(),
        "Registration failed: x"
    );
}
