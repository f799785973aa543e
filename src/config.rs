use vstd::prelude::*;
use vstd::string::StringExecFns;

verus! {

/// Settings the server advertises to cameras and listens with.
#[derive(Debug, Clone)]
pub struct AppConfig {
    /// Address advertised to cameras in the NAT and UDP probe messages.
    pub server_ip: String,
    pub domain: String,
    /// 32-hex target id sent as `cliTarget` and as the forward target.
    pub client_target: String,
    /// Token sent as `cliToken`.
    pub client_token: String,
    /// 8-hex password handed out by the bootstrap configuration check.
    pub server_token: String,
    pub tcp_registration_port: u16,
    pub tcp_protocol_port: u16,
    pub udp_protocol_port: u16,
    pub udp_stream_port_1: u16,
    /// Stream port advertised when no ephemeral port could be bound.
    pub udp_stream_port_2: u16,
    pub web_port: u16,
    pub max_retries: u32,
    pub retry_timeout_ms: u64,
    pub health_check_interval_ms: u64,
    pub retransmission_interval_ms: u64,
    /// A session without keepalive for this long is dropped.
    pub keepalive_idle_secs: u64,
    /// Capacity of the ingress queue.
    pub ingress_capacity: usize,
    /// Frames processed at once.
    pub max_inflight: usize,
}

impl Default for AppConfig {
    fn default() -> (r: Self)
        ensures
            r.server_ip@ == "192.168.1.99"@,
            r.domain@ == "v720.naxclow.com"@,
            r.client_target@ == "00112233445566778899aabbccddeeff"@,
            r.client_token@ == "deadc0de"@,
            r.server_token@ == "deadbeef"@,
            r.tcp_registration_port == 80,
            r.tcp_protocol_port == 6123,
            r.udp_protocol_port == 6123,
            r.udp_stream_port_1 == 53221,
            r.udp_stream_port_2 == 41234,
            r.web_port == 8080,
            r.max_retries == 3,
            r.retry_timeout_ms == 5000,
            r.health_check_interval_ms == 30000,
            r.retransmission_interval_ms == 100,
            r.keepalive_idle_secs == 30,
            r.ingress_capacity == 8192,
            r.max_inflight == 256,
    {
        AppConfig {
            server_ip: String::from_str("192.168.1.99"),
            domain: String::from_str("v720.naxclow.com"),
            client_target: String::from_str("00112233445566778899aabbccddeeff"),
            client_token: String::from_str("deadc0de"),
            server_token: String::from_str("deadbeef"),
            tcp_registration_port: 80,
            tcp_protocol_port: 6123,
            udp_protocol_port: 6123,
            udp_stream_port_1: 53221,
            udp_stream_port_2: 41234,
            web_port: 8080,
            max_retries: 3,
            retry_timeout_ms: 5000,
            health_check_interval_ms: 30000,
            retransmission_interval_ms: 100,
            keepalive_idle_secs: 30,
            ingress_capacity: 8192,
            max_inflight: 256,
        }
    }
}

} // verus!
