use a9_v720_server::{
    confirm_body, register_devices_body, AppConfig, Code50Request, ConfigCheckResponse, DeviceStatusRequest,
    ForwardCommand, ForwardContent, NatProbeRequest, RegistrationResponse, UdpProbeResponse,
};

#[test]
fn bootstrap_registration_body() {
    assert_eq!(
        register_devices_body("DEFGHI").unwrap(),
        r#"{"code":200,"message":"操作成功","data":"0800c001DEFG"}"#
    );
    assert_eq!(
        register_devices_body("abcdef").unwrap(),
        r#"{"code":200,"message":"操作成功","data":"0800c001ABCD"}"#
    );
    assert!(register_devices_body("abc").is_none());
}

#[test]
fn bootstrap_confirm_body() {
    assert_eq!(confirm_body(), r#"{"code":200,"message":"操作成功","data":null}"#);
}

#[test]
fn config_check_body() {
    let cfg = AppConfig::default();
    let r = ConfigCheckResponse::new_at("0800c001DEFG", &cfg, 1755023490);
    assert_eq!(
        r.to_json(),
        r#"{"code":200,"message":"操作成功","data":{"tcpPort":6123,"uid":"0800c001DEFG","isBind":"8","domain":"v720.naxclow.com","updateUrl":null,"host":"192.168.1.99","currTime":"1755023490","pwd":"deadbeef","version":null}}"#
    );
    let now = ConfigCheckResponse::new("x", &cfg);
    assert!(now.data.curr_time.chars().all(|c| c.is_ascii_digit() || c == '-'));
    assert!(now.data.curr_time.len() >= 10);
}

#[test]
fn message_texts() {
    assert_eq!(RegistrationResponse::new().to_json(), r#"{"code":101,"status":200}"#);
    assert_eq!(DeviceStatusRequest::new().to_json(), r#"{"code":53,"status":1}"#);
    assert_eq!(Code50Request::new().to_json(), r#"{"code":50}"#);
    let cfg = AppConfig::default();
    assert_eq!(UdpProbeResponse::new(&cfg, 40000).to_json(), r#"{"code":21,"ip":"192.168.1.99","port":40000}"#);
    assert_eq!(
        NatProbeRequest::new(&cfg).to_json(),
        r#"{"code":11,"cliTarget":"00112233445566778899aabbccddeeff","cliToken":"deadc0de","cliIp":"255.255.255.255","cliPort":0,"cliNatIp":"192.168.1.99","cliNatPort":6123}"#
    );
    assert_eq!(
        ForwardCommand::retransmission_request(&cfg).to_json(),
        r#"{"code":301,"target":"00112233445566778899aabbccddeeff","content":{"code":298}}"#
    );
    assert_eq!(
        ForwardCommand::start_streaming_request(&cfg).to_json(),
        r#"{"code":301,"target":"00112233445566778899aabbccddeeff","content":{"code":3}}"#
    );
    assert_eq!(
        ForwardCommand::device_info_request_at(&cfg, -5).to_json(),
        r#"{"code":301,"target":"00112233445566778899aabbccddeeff","content":{"unitTimer":-5,"code":4}}"#
    );
    let now = ForwardCommand::device_info_request(&cfg);
    assert!(matches!(now.content, ForwardContent::DeviceInfo { unit_timer } if unit_timer > 1_600_000_000));
}

#[test]
fn strings_are_escaped() {
    let mut cfg = AppConfig::default();
    cfg.server_ip = "a\"b\\c".to_string();
    assert_eq!(UdpProbeResponse::new(&cfg, 1).to_json(), r#"{"code":21,"ip":"a\"b\\c","port":1}"#);
}

#[test]
fn decimal_extremes() {
    let cfg = AppConfig::default();
    assert_eq!(
        ForwardCommand::device_info_request_at(&cfg, i64::MIN).to_json(),
        r#"{"code":301,"target":"00112233445566778899aabbccddeeff","content":{"unitTimer":-9223372036854775808,"code":4}}"#
    );
    assert_eq!(UdpProbeResponse::new(&cfg, 0).to_json(), r#"{"code":21,"ip":"192.168.1.99","port":0}"#);
    assert_eq!(UdpProbeResponse::new(&cfg, 65535).to_json(), r#"{"code":21,"ip":"192.168.1.99","port":65535}"#);
}

#[test]
fn stream_ports_are_drawn_from_the_range() {
    let ports: Vec<u16> = (0..32).map(|_| a9_v720_server::pick_stream_port()).collect();
    assert!(ports.iter().all(|p| (32000..65000).contains(p)));
    assert!(ports.iter().any(|p| *p != ports[0]));
}

#[test]
fn control_characters_are_escaped() {
    let mut cfg = AppConfig::default();
    cfg.server_ip = "a\nb\u{1}c\t\u{8}\u{c}\r/é".to_string();
    assert_eq!(
        UdpProbeResponse::new(&cfg, 2).to_json(),
        "{\"code\":21,\"ip\":\"a\\nb\\u0001c\\t\\b\\f\\r/é\",\"port\":2}"
    );
}
