use a9_v720_server::{serialize_registration_response, ProtocolHeader, ProtocolMessage, RetransmissionConfirm};

#[test]
fn test_serialize_registration_response() {
    let message = ProtocolMessage {
        code: 101,
        status: Some(200),
        ..Default::default()
    };

    let data = serialize_registration_response(&message).unwrap();
    let json_str = String::from_utf8_lossy(&data[18..]);

    assert!(json_str.contains("\"code\":101"));
    assert!(json_str.contains("\"status\":200"));
}

#[test]
fn test_header_serialization() {
    let header = ProtocolHeader::json(123, 100);
    let bytes = header.to_bytes();
    let (parsed_header, _) = ProtocolHeader::from_bytes(&bytes).unwrap();

    assert_eq!(header.cmd, parsed_header.cmd);
    assert_eq!(header.length, parsed_header.length);
    assert_eq!(header.msg_flag, parsed_header.msg_flag);
    assert_eq!(header.pkg_id, parsed_header.pkg_id);
}

#[test]
fn test_retransmission_serialization() {
    let confirm = RetransmissionConfirm {
        received_packets: vec![1, 2, 3, 4, 5],
    };
    let bytes = confirm.to_bytes();
    let parsed_confirm = RetransmissionConfirm::from_bytes(&bytes).unwrap();

    assert_eq!(confirm.received_packets, parsed_confirm.received_packets);
}

#[test]
fn registration_response_frame_is_exact() {
    let message = ProtocolMessage {
        code: 101,
        status: Some(200),
        ..Default::default()
    };
    let data = serialize_registration_response(&message).unwrap();
    let body = br#"{"code":101,"status":200}"#;
    assert_eq!(data.len(), 20 + body.len());
    assert_eq!(&data[0..4], &(body.len() as u32).to_le_bytes());
    assert_eq!(&data[4..6], &[0, 0]);
    assert_eq!(data[6], 255);
    assert_eq!(data[7], 0);
    assert_eq!(&data[8..16], b"00000000");
    assert_eq!(&data[16..20], &[0, 0, 0, 0]);
    assert_eq!(&data[20..], &body[..]);
}

#[test]
fn registration_response_without_status_and_negative_code() {
    let message = ProtocolMessage {
        code: -7,
        ..Default::default()
    };
    let data = serialize_registration_response(&message).unwrap();
    assert_eq!(&data[20..], br#"{"code":-7}"#);
}

#[test]
fn header_fields_round_trip_and_layout() {
    let header = ProtocolHeader::new(605, 0x0102_0304, 252, 0xAABB_CCDD);
    let bytes = header.to_bytes();
    assert_eq!(bytes, vec![4, 3, 2, 1, 0x5d, 0x02, 252, 0, b'0', b'0', b'0', b'0', b'0', b'0', b'0', b'0', 0xDD, 0xCC, 0xBB, 0xAA]);
    let (parsed, rest) = ProtocolHeader::from_bytes(&bytes).unwrap();
    assert!(rest.is_empty());
    assert_eq!(parsed.length, 0x0102_0304);
    assert_eq!(parsed.cmd, 605);
    assert_eq!(parsed.msg_flag, 252);
    assert_eq!(parsed.deal_fl, 0);
    assert_eq!(&parsed.fwd_id, b"00000000");
    assert_eq!(parsed.pkg_id, 0xAABB_CCDD);
}

#[test]
fn header_constructors() {
    assert_eq!(ProtocolHeader::json(1, 30).cmd, 0);
    assert_eq!(ProtocolHeader::json(1, 30).msg_flag, 255);
    assert_eq!(ProtocolHeader::binary(99, 2, 0).cmd, 99);
    let v = ProtocolHeader::video_frame(3, 1000, 251);
    assert_eq!((v.cmd, v.length, v.msg_flag, v.pkg_id), (1, 1000, 251, 3));
    assert_eq!(ProtocolHeader::audio_frame(4, 10).cmd, 4);
    let h = ProtocolHeader::heartbeat(9);
    assert_eq!((h.cmd, h.length, h.pkg_id), (100, 20, 9));
    assert_eq!(ProtocolHeader::retransmission(0, 12).cmd, 605);
    let c = ProtocolHeader::retransmission_confirm(5);
    assert_eq!((c.cmd, c.length, c.pkg_id), (605, 20, 0));
}

#[test]
fn short_header_is_an_error() {
    let bytes = [0u8; 19];
    assert_eq!(ProtocolHeader::from_bytes(&bytes).unwrap_err(), a9_v720_server::CodecError::Short);
}

#[test]
fn retransmission_bad_length_is_an_error() {
    assert_eq!(
        RetransmissionConfirm::from_bytes(&[1, 2, 3]).unwrap_err(),
        a9_v720_server::CodecError::BadLength
    );
    assert!(RetransmissionConfirm::empty().received_packets.is_empty());
}

#[test]
fn ack_wire_format_is_exact() {
    let c = RetransmissionConfirm {
        received_packets: vec![7, 0x0102_0304],
    };
    let wire = c.to_wire().unwrap();
    let mut expected = vec![20u8, 0, 0, 0, 0x5d, 0x02, 0, 0];
    expected.extend_from_slice(b"00000000");
    expected.extend_from_slice(&[7, 0, 0, 0, 4, 3, 2, 1]);
    assert_eq!(wire, expected);

    let empty = RetransmissionConfirm::empty().to_wire().unwrap();
    let mut expected = vec![12u8, 0, 0, 0, 0x5d, 0x02, 0, 0];
    expected.extend_from_slice(b"00000000");
    assert_eq!(empty, expected);
}
