use a9_v720_server::codec::{decode_frame, encode_frame};
use a9_v720_server::messages::encode_reply;
use a9_v720_server::{
    advertised_stream_port, pick_stream_port, AppConfig, CameraManager, ForwardContent, OperatorCommand,
    ProtocolMessage, ProtocolState, Reply, StepContext,
};

const CAMERA_IP: u128 = 0xffff_c0a8_0132;
const CTX: StepContext = StepContext { stream_port: 41234, unix_secs: 1755023490 };

fn control(code: i32) -> ProtocolMessage {
    ProtocolMessage { code, ..Default::default() }
}

fn registration() -> ProtocolMessage {
    ProtocolMessage {
        code: 100,
        uid: Some("0800c00128F8".to_string()),
        token: Some("91edf41f".to_string()),
        domain: Some("v720.naxclow.com".to_string()),
        ..Default::default()
    }
}

fn registration_bytes() -> Vec<u8> {
    let json = br#"{"code": 100, "uid": "0800c00128F8", "token": "91edf41f" ,"domain": "v720.naxclow.com"}"#;
    assert_eq!(json.len(), 87);
    let mut bytes = vec![87u8, 0, 0, 0];
    bytes.extend_from_slice(&[0u8; 16]);
    bytes.extend_from_slice(json);
    bytes
}

fn registered_manager() -> CameraManager {
    let mut m = CameraManager::new(AppConfig::default());
    let frame = decode_frame(&registration_bytes()).unwrap();
    let replies = m.on_tcp_frame(CAMERA_IP, &frame, Some(registration()), 1000, CTX);
    assert_eq!(replies, vec![Reply::Registered]);
    m
}

fn json_of(bytes: &[u8]) -> String {
    String::from_utf8(bytes[20..].to_vec()).unwrap()
}

#[test]
fn registration_creates_session_and_replies_101() {
    let m = registered_manager();
    let frame = decode_frame(&registration_bytes()).unwrap();
    assert_eq!(frame.header.length, 87);
    assert_eq!(frame.header.cmd, 0);
    let s = m.get_camera(CAMERA_IP).unwrap();
    assert_eq!(s.device_id.as_deref(), Some("0800c00128F8"));
    assert_eq!(s.token.as_deref(), Some("91edf41f"));
    assert_eq!(s.handshake.state, ProtocolState::Registered);
    assert!(m.session_info("0800c00128F8").is_some());

    let bytes = encode_reply(&Reply::Registered, &m.config).unwrap();
    assert_eq!(bytes.len(), 20 + 25);
    assert_eq!(&bytes[0..4], &[25, 0, 0, 0]);
    assert_eq!(json_of(&bytes), r#"{"code":101,"status":200}"#);
}

#[test]
fn keepalive_gets_the_fixed_pattern() {
    let mut m = registered_manager();
    let frame = decode_frame(&[0u8; 20]).unwrap();
    let replies = m.on_tcp_frame(CAMERA_IP, &frame, None, 2000, CTX);
    assert_eq!(replies, vec![Reply::KeepaliveAck]);
    let bytes = encode_reply(&replies[0], &m.config).unwrap();
    assert_eq!(
        bytes,
        vec![0, 0, 0, 0, 0x64, 0, 0, 0, 0x30, 0x30, 0x30, 0x30, 0x30, 0x30, 0x30, 0x30, 0, 0, 0, 0]
    );
    assert_eq!(m.get_camera(CAMERA_IP).unwrap().last_keepalive_ms, 2000);
}

#[test]
fn start_stream_sends_code_11_and_no_keepalive_reply() {
    let mut m = registered_manager();
    assert!(m.queue_command("0800c00128F8", OperatorCommand::StartStream));
    let frame = decode_frame(&[0u8; 20]).unwrap();
    let replies = m.on_tcp_frame(CAMERA_IP, &frame, None, 2000, CTX);
    assert_eq!(replies, vec![Reply::NatProbe]);
    let bytes = encode_reply(&replies[0], &m.config).unwrap();
    assert_eq!(
        json_of(&bytes),
        r#"{"code":11,"cliTarget":"00112233445566778899aabbccddeeff","cliToken":"deadc0de","cliIp":"255.255.255.255","cliPort":0,"cliNatIp":"192.168.1.99","cliNatPort":6123}"#
    );
    assert_eq!(&bytes[4..6], &[0, 0]);
    assert_eq!(m.get_camera(CAMERA_IP).unwrap().handshake.state, ProtocolState::NatProbeSent);
    assert!(!m.queue_command("nobody", OperatorCommand::Stop));
}

fn streaming_manager() -> CameraManager {
    let mut m = registered_manager();
    m.queue_command("0800c00128F8", OperatorCommand::StartStream);
    let keepalive = decode_frame(&[0u8; 20]).unwrap();
    m.on_tcp_frame(CAMERA_IP, &keepalive, None, 2000, CTX);
    let f12 = decode_frame(&encode_frame(0, 0, 0, br#"{"code":12}"#)).unwrap();
    assert!(m.on_tcp_frame(CAMERA_IP, &f12, Some(control(12)), 2100, CTX).is_empty());
    let f20 = decode_frame(&encode_frame(0, 0, 0, br#"{"code":20}"#)).unwrap();
    let out = m.on_udp_frame(CAMERA_IP, 5000, &f20, Some(control(20)), CTX);
    assert_eq!(out.replies, vec![Reply::UdpProbeAnswer { port: 41234 }]);
    let replies = m.on_tcp_frame(CAMERA_IP, &f12, Some(control(12)), 2200, CTX);
    assert_eq!(
        replies,
        vec![
            Reply::DeviceStatus,
            Reply::Forward(ForwardContent::Retransmission),
            Reply::Forward(ForwardContent::DeviceInfo { unit_timer: 1755023490 }),
        ]
    );
    assert_eq!(m.get_camera(CAMERA_IP).unwrap().handshake.state, ProtocolState::Streaming);
    m
}

#[test]
fn handshake_reaches_streaming_with_the_triplet_once() {
    let mut m = streaming_manager();
    let cfg = m.config.clone();
    let texts: Vec<String> = [
        Reply::DeviceStatus,
        Reply::Forward(ForwardContent::Retransmission),
        Reply::Forward(ForwardContent::DeviceInfo { unit_timer: 1755023490 }),
    ]
    .iter()
    .map(|r| json_of(&encode_reply(r, &cfg).unwrap()))
    .collect();
    assert_eq!(texts[0], r#"{"code":53,"status":1}"#);
    assert_eq!(texts[1], r#"{"code":301,"target":"00112233445566778899aabbccddeeff","content":{"code":298}}"#);
    assert_eq!(
        texts[2],
        r#"{"code":301,"target":"00112233445566778899aabbccddeeff","content":{"unitTimer":1755023490,"code":4}}"#
    );
    // A second code 12 changes nothing.
    let f12 = decode_frame(&encode_frame(0, 0, 0, br#"{"code":12}"#)).unwrap();
    assert!(m.on_tcp_frame(CAMERA_IP, &f12, Some(control(12)), 2300, CTX).is_empty());
    // The camera echoes content code 4: the stream-start command follows.
    let echo = ProtocolMessage { code: 301, content_code: Some(4), ..Default::default() };
    let replies = m.on_tcp_frame(CAMERA_IP, &f12, Some(echo), 2400, CTX);
    assert_eq!(replies, vec![Reply::Forward(ForwardContent::StreamStart)]);
    assert_eq!(
        json_of(&encode_reply(&replies[0], &cfg).unwrap()),
        r#"{"code":301,"target":"00112233445566778899aabbccddeeff","content":{"code":3}}"#
    );
}

#[test]
fn udp_probe_answer_carries_ip_and_port() {
    let p = pick_stream_port();
    assert!((32000..65000).contains(&p));
    let cfg = AppConfig::default();
    assert_eq!(advertised_stream_port(Some(p), &cfg), p);
    assert_eq!(advertised_stream_port(None, &cfg), 41234);
    let bytes = encode_reply(&Reply::UdpProbeAnswer { port: p }, &cfg).unwrap();
    assert_eq!(json_of(&bytes), format!(r#"{{"code":21,"ip":"192.168.1.99","port":{}}}"#, p));
    assert_eq!(bytes[6], 255);
}

#[test]
fn udp_probe_out_of_order_is_ignored() {
    let mut m = registered_manager();
    let f20 = decode_frame(&encode_frame(0, 0, 0, br#"{"code":20}"#)).unwrap();
    let out = m.on_udp_frame(CAMERA_IP, 5000, &f20, Some(control(20)), CTX);
    assert!(out.replies.is_empty());
    assert_eq!(m.get_camera(CAMERA_IP).unwrap().handshake.state, ProtocolState::Registered);
}

#[test]
fn udp_from_unknown_camera_is_dropped() {
    let mut m = CameraManager::new(AppConfig::default());
    let f = decode_frame(&encode_frame(1, 250, 1, b"A")).unwrap();
    let out = m.on_udp_frame(42, 5000, &f, None, CTX);
    assert!(out.replies.is_empty() && out.ack.is_none());
    assert!(m.get_camera(42).is_none());
}

#[test]
fn udp_keepalive_gets_an_empty_ack() {
    let mut m = registered_manager();
    let f = decode_frame(&encode_frame(100, 0, 0, b"")).unwrap();
    let out = m.on_udp_frame(CAMERA_IP, 6000, &f, None, CTX);
    assert_eq!(out.ack, Some(vec![]));
    assert_eq!(m.get_camera(CAMERA_IP).unwrap().last_udp_port, Some(6000));
}

#[test]
fn video_reassembly_and_acknowledgements() {
    let mut m = streaming_manager();
    let a = vec![0xFFu8, 0xD8, 1, 2];
    let b = vec![3u8, 4, 5];
    let mut c = vec![6u8, 0xFF, 0xD9];
    let total = (a.len() + b.len() + c.len()) as u32;
    c.extend_from_slice(&total.to_le_bytes());

    let send = |m: &mut CameraManager, flag: u8, id: u32, p: &[u8]| {
        let f = decode_frame(&encode_frame(1, flag, id, p)).unwrap();
        m.on_udp_frame(CAMERA_IP, 7000, &f, None, CTX).ack
    };
    assert_eq!(send(&mut m, 250, 10, &a), None);
    assert_eq!(send(&mut m, 251, 11, &b), None);
    let first = send(&mut m, 252, 12, &c).unwrap();
    assert!(first.is_empty());

    let s = m.get_camera(CAMERA_IP).unwrap();
    assert_eq!(s.stream_buffer.frame_count(), 1);
    let mut expected = a.clone();
    expected.extend_from_slice(&b);
    expected.extend_from_slice(&[6, 0xFF, 0xD9]);
    assert_eq!(s.latest_frame().unwrap(), &expected[..]);
    assert_eq!(m.latest_frame("0800c00128F8").unwrap(), &expected[..]);

    assert_eq!(send(&mut m, 250, 13, &a), None);
    let second = send(&mut m, 252, 14, &c).unwrap();
    assert_eq!(second, vec![10, 11, 12, 13, 14]);
    assert_eq!(m.get_camera(CAMERA_IP).unwrap().stream_buffer.frame_count(), 2);
    let third = send(&mut m, 250, 15, &a);
    assert_eq!(third, None);
    let third = send(&mut m, 252, 15, &c).unwrap();
    assert_eq!(third, vec![15]);
}

#[test]
fn audio_is_acknowledged_but_not_reassembled() {
    let mut m = registered_manager();
    for (i, cmd) in [4u16, 6, 7].iter().enumerate() {
        let f = decode_frame(&encode_frame(*cmd, 255, 20 + i as u32, b"pcm")).unwrap();
        assert_eq!(m.on_udp_frame(CAMERA_IP, 7000, &f, None, CTX).ack, None);
    }
    let s = m.get_camera(CAMERA_IP).unwrap();
    assert_eq!(s.stream_buffer.frame_count(), 0);
    assert!(!s.bucket.is_retransmission_bucket_empty());
    assert_eq!(s.last_udp_port, Some(7000));
}

#[test]
fn probe_loop_completes_after_three_exchanges() {
    let mut m = registered_manager();
    m.queue_command("0800c00128F8", OperatorCommand::StartStream);
    let keepalive = decode_frame(&[0u8; 20]).unwrap();
    m.on_tcp_frame(CAMERA_IP, &keepalive, None, 2000, CTX);
    let f12 = decode_frame(&encode_frame(0, 0, 0, br#"{"code":12}"#)).unwrap();
    m.on_tcp_frame(CAMERA_IP, &f12, Some(control(12)), 2100, CTX);
    let f20 = decode_frame(&encode_frame(0, 0, 0, br#"{"code":20}"#)).unwrap();
    m.on_udp_frame(CAMERA_IP, 5000, &f20, Some(control(20)), CTX);
    let f51 = decode_frame(&encode_frame(0, 0, 0, br#"{"code":51}"#)).unwrap();
    for i in 0..3 {
        let out = m.on_udp_frame(CAMERA_IP, 5000, &f51, Some(control(51)), CTX);
        assert_eq!(out.replies, vec![Reply::ProbeRequest]);
        let state = m.get_camera(CAMERA_IP).unwrap().handshake.state;
        if i < 2 {
            assert_eq!(state, ProtocolState::ProbeLoop);
        } else {
            assert_eq!(state, ProtocolState::Streaming);
        }
    }
    let bytes = encode_reply(&Reply::ProbeRequest, &m.config).unwrap();
    assert_eq!(json_of(&bytes), r#"{"code":50}"#);
}

#[test]
fn reregistration_keeps_pending_command() {
    let mut m = registered_manager();
    m.queue_command("0800c00128F8", OperatorCommand::Snapshot);
    let frame = decode_frame(&registration_bytes()).unwrap();
    m.on_tcp_frame(CAMERA_IP, &frame, Some(registration()), 3000, CTX);
    let s = m.get_camera(CAMERA_IP).unwrap();
    assert_eq!(s.handshake.state, ProtocolState::Registered);
    assert_eq!(s.handshake.pending, Some(OperatorCommand::Snapshot));
}

#[test]
fn stop_sends_stream_stop_and_clears_video() {
    let mut m = streaming_manager();
    m.queue_command("0800c00128F8", OperatorCommand::Stop);
    let keepalive = decode_frame(&[0u8; 20]).unwrap();
    let replies = m.on_tcp_frame(CAMERA_IP, &keepalive, None, 4000, CTX);
    assert_eq!(replies, vec![Reply::KeepaliveAck, Reply::Forward(ForwardContent::StreamStop)]);
    assert_eq!(
        json_of(&encode_reply(&replies[1], &m.config).unwrap()),
        r#"{"code":301,"target":"00112233445566778899aabbccddeeff","content":{"code":0}}"#
    );
}

#[test]
fn idle_sessions_expire() {
    let mut m = registered_manager();
    m.expire_idle(20_000, 30_000);
    assert!(m.get_camera(CAMERA_IP).is_some());
    m.expire_idle(31_000, 30_000);
    assert!(m.get_camera(CAMERA_IP).is_none());
    assert!(m.list_cameras().is_empty());
}

#[test]
fn unknown_and_unparsed_frames_change_nothing() {
    let mut m = CameraManager::new(AppConfig::default());
    let f = decode_frame(&encode_frame(0, 0, 0, br#"{"code":999}"#)).unwrap();
    assert!(m.on_tcp_frame(CAMERA_IP, &f, Some(control(999)), 0, CTX).is_empty());
    assert!(m.on_tcp_frame(CAMERA_IP, &f, None, 0, CTX).is_empty());
    assert!(m.list_cameras().is_empty());
    let k = decode_frame(&[0u8; 20]).unwrap();
    m.on_tcp_frame(CAMERA_IP, &k, None, 0, CTX);
    assert_eq!(m.list_cameras(), vec![CAMERA_IP]);
    m.remove_camera(CAMERA_IP);
    assert!(m.list_cameras().is_empty());
}

#[test]
fn udp_keepalive_from_unknown_address_gets_an_empty_ack() {
    let mut m = CameraManager::new(AppConfig::default());
    let f = decode_frame(&encode_frame(100, 0, 0, b"")).unwrap();
    let out = m.on_udp_frame(42, 5000, &f, None, CTX);
    assert_eq!(out.ack, Some(vec![]));
    assert!(out.replies.is_empty());
    assert!(m.get_camera(42).is_none());
}

#[test]
fn stream_port_is_needed_only_for_an_answerable_probe() {
    let mut m = registered_manager();
    let f20 = decode_frame(&encode_frame(0, 0, 0, br#"{"code":20}"#)).unwrap();
    assert!(!m.needs_stream_port(CAMERA_IP, &f20, &Some(control(20))));
    m.queue_command("0800c00128F8", OperatorCommand::StartStream);
    let keepalive = decode_frame(&[0u8; 20]).unwrap();
    m.on_tcp_frame(CAMERA_IP, &keepalive, None, 2000, CTX);
    let f12 = decode_frame(&encode_frame(0, 0, 0, br#"{"code":12}"#)).unwrap();
    m.on_tcp_frame(CAMERA_IP, &f12, Some(control(12)), 2100, CTX);
    assert!(m.needs_stream_port(CAMERA_IP, &f20, &Some(control(20))));
    assert!(!m.needs_stream_port(CAMERA_IP, &f20, &Some(control(51))));
    assert!(!m.needs_stream_port(7, &f20, &Some(control(20))));
}

#[test]
fn tcp_frames_keep_bucket_and_video() {
    let mut m = streaming_manager();
    let send = |m: &mut CameraManager, flag: u8, id: u32, p: &[u8]| {
        let f = decode_frame(&encode_frame(1, flag, id, p)).unwrap();
        m.on_udp_frame(CAMERA_IP, 7000, &f, None, CTX).ack
    };
    send(&mut m, 250, 1, b"A");
    send(&mut m, 252, 2, b"B");
    send(&mut m, 250, 3, b"C");
    let keepalive = decode_frame(&[0u8; 20]).unwrap();
    m.on_tcp_frame(CAMERA_IP, &keepalive, None, 9000, CTX);
    let s = m.get_camera(CAMERA_IP).unwrap();
    assert_eq!(s.stream_buffer.frame_count(), 1);
    assert_eq!(s.stream_buffer.get_received_packages(), vec![3]);
    assert!(s.bucket.first_end_frame_seen());
    assert_eq!(s.last_udp_port, Some(7000));
    assert_eq!(send(&mut m, 252, 4, b"D"), Some(vec![1, 2, 3, 4]));
}
