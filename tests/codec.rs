use a9_v720_server::codec::{decode_frame, encode_frame, json_body};
use a9_v720_server::{CodecError, FrameKind};

#[test]
fn encode_then_decode_gives_back_the_tuple() {
    let payload: Vec<u8> = (0..200u32).map(|i| (i * 7) as u8).collect();
    let bytes = encode_frame(1, 251, 0xDEAD_BEEF, &payload);
    assert_eq!(bytes.len(), 20 + payload.len());
    let f = decode_frame(&bytes).unwrap();
    assert_eq!(f.header.cmd, 1);
    assert_eq!(f.header.msg_flag, 251);
    assert_eq!(f.header.pkg_id, 0xDEAD_BEEF);
    assert_eq!(f.header.deal_fl, 0);
    assert_eq!(&f.header.fwd_id, b"00000000");
    assert_eq!(f.payload, payload);
    assert_eq!(f.kind(), FrameKind::Video);
}

#[test]
fn round_trip_at_the_largest_payload() {
    let payload = vec![0xABu8; 65516];
    let bytes = encode_frame(0, 255, 1, &payload);
    let f = decode_frame(&bytes).unwrap();
    assert_eq!(f.payload.len(), 65516);
    assert_eq!(f.header.length, 65516);
    assert_eq!(f.kind(), FrameKind::Control);
}

#[test]
fn empty_payload_is_a_keepalive() {
    let bytes = [0u8; 20];
    let f = decode_frame(&bytes).unwrap();
    assert_eq!(f.kind(), FrameKind::Keepalive);
    assert!(f.payload.is_empty());
}

#[test]
fn frame_kinds() {
    let k = |cmd: u16, p: &[u8]| decode_frame(&encode_frame(cmd, 0, 0, p)).unwrap().kind();
    assert_eq!(k(100, b"x"), FrameKind::Keepalive);
    assert_eq!(k(99, b""), FrameKind::Keepalive);
    assert_eq!(k(0, b"{}"), FrameKind::Control);
    assert_eq!(k(4, b"a"), FrameKind::Audio);
    assert_eq!(k(6, b"a"), FrameKind::Audio);
    assert_eq!(k(7, b"a"), FrameKind::Audio);
    assert_eq!(k(605, b"a"), FrameKind::Acknowledgement);
    assert_eq!(k(42, b"a"), FrameKind::Unknown);
}

#[test]
fn decode_errors() {
    assert!(matches!(decode_frame(&[0u8; 5]), Err(CodecError::Short)));
    let mut bytes = encode_frame(0, 0, 0, b"{}");
    bytes[0] = 3;
    assert!(matches!(decode_frame(&bytes), Err(CodecError::BadLength)));
}

#[test]
fn bytes_past_the_announced_length_are_not_payload() {
    let mut bytes = encode_frame(0, 0, 0, b"{}");
    bytes.extend_from_slice(b"trailing");
    assert_eq!(decode_frame(&bytes).unwrap().payload, b"{}".to_vec());
}

#[test]
fn leading_nuls_are_stripped_before_json() {
    let body = br#"{"code":20}"#;
    for k in 1..=8usize {
        let mut p = vec![0u8; k];
        p.extend_from_slice(body);
        let f = decode_frame(&encode_frame(0, 255, 3, &p)).unwrap();
        assert_eq!(f.kind(), FrameKind::Control);
        assert_eq!(f.json_text(), &body[..]);
    }
    let plain = decode_frame(&encode_frame(0, 255, 3, body)).unwrap();
    assert_eq!(plain.json_text(), &body[..]);
    assert_eq!(json_body(&[0, 0, 0]), &[] as &[u8]);
}
