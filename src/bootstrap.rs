use vstd::prelude::*;
use vstd::string::{StrSliceExecFns, StringExecFns};
use crate::config::AppConfig;
use crate::messages::unix_now;
use crate::text::{decimal, signed_decimal, json_quoted, append_decimal, append_signed_decimal, append_quoted};

verus! {

/// Lowest port drawn for a camera's video stream.
pub const STREAM_PORT_MIN: u16 = 32000;
/// One past the highest port drawn for a camera's video stream.
pub const STREAM_PORT_MAX: u16 = 65000;

/// Relies on rand's `Rng::gen_range` on `thread_rng()`, which returns a value
/// of the half-open range and panics only when the range is empty.
#[verifier::external_body]
fn draw_port(low: u16, high: u16) -> (r: u16)
    requires
        low < high,
    ensures
        low <= r < high,
{
    rand::Rng::gen_range(&mut rand::thread_rng(), low..high)
}

/// A random port in [32000, 65000) to bind for a camera's video stream.
pub fn pick_stream_port() -> (r: u16)
    ensures
        STREAM_PORT_MIN <= r < STREAM_PORT_MAX,
{
    draw_port(STREAM_PORT_MIN, STREAM_PORT_MAX)
}

/// The port to advertise in a UDP probe answer: the ephemeral port when it
/// could be bound, else the configured fallback stream port.
pub fn advertised_stream_port(bound: Option<u16>, config: &AppConfig) -> (r: u16)
    ensures
        r == match bound {
            Some(p) => p,
            None => config.udp_stream_port_2,
        },
{
    match bound {
        Some(p) => p,
        None => config.udp_stream_port_2,
    }
}

/// The upper-case form of `s`.
pub uninterp spec fn upper_of(s: Seq<char>) -> Seq<char>;

/// Relies on `str::to_uppercase`: the result depends on the characters alone.
#[verifier::external_body]
fn uppercase(s: &str) -> (r: String)
    ensures
        r@ == upper_of(s@),
{
    s.to_uppercase()
}

/// `{"code":200,"message":"操作成功","data":` (every bootstrap answer starts so).
pub open spec fn ok_open() -> Seq<char> {
    "{\"code\":200,\"message\":\"操作成功\",\"data\":"@
}

/// Device id handed out at bootstrap registration: a fixed prefix and the first
/// four characters of the camera's random value, upper-cased.
pub open spec fn bootstrap_device_id(random: Seq<char>) -> Seq<char> {
    "0800c001"@ + upper_of(random.subrange(0, 4))
}

/// Body of the answer to `registerDevices`; none when `random` has fewer than
/// four characters.
pub fn register_devices_body(random: &str) -> (r: Option<String>)
    ensures
        match r {
            Some(b) => random@.len() >= 4 && b@ == ok_open() + json_quoted(bootstrap_device_id(random@)) + "}"@,
            None => random@.len() < 4,
        },
{
    if random.unicode_len() < 4 {
        return None;
    }
    let head = random.substring_char(0, 4);
    let up = uppercase(head);
    let mut id = String::from_str("0800c001");
    id.append(up.as_str());
    let mut body = String::from_str("{\"code\":200,\"message\":\"操作成功\",\"data\":");
    append_quoted(&mut body, id.as_str());
    body.append("}");
    Some(body)
}

/// Body of the answer to `confirm`.
pub fn confirm_body() -> (r: String)
    ensures
        r@ == ok_open() + "null}"@,
{
    let mut body = String::from_str("{\"code\":200,\"message\":\"操作成功\",\"data\":");
    body.append("null}");
    body
}

/// The `data` object of the configuration check answer, keys in wire order.
pub open spec fn config_data_text(d: ConfigData) -> Seq<char> {
    "{\"tcpPort\":"@ + decimal(d.tcp_port as nat) + ",\"uid\":"@ + json_quoted(d.uid@)
        + ",\"isBind\":"@ + json_quoted(d.is_bind@) + ",\"domain\":"@ + json_quoted(d.domain@)
        + ",\"updateUrl\":null,\"host\":"@ + json_quoted(d.host@) + ",\"currTime\":"@
        + json_quoted(d.curr_time@) + ",\"pwd\":"@ + json_quoted(d.pwd@) + ",\"version\":null}"@
}

/// What the configuration check hands a camera.
pub struct ConfigData {
    pub tcp_port: u16,
    pub uid: String,
    pub is_bind: String,
    pub domain: String,
    pub host: String,
    /// Server time, decimal seconds since the Unix epoch.
    pub curr_time: String,
    pub pwd: String,
}

/// Answer to `getA9ConfCheck`.
pub struct ConfigCheckResponse {
    pub code: u32,
    pub message: String,
    pub data: ConfigData,
}

impl ConfigCheckResponse {
    /// The answer for device `device_id` at server time `now_secs`.
    pub fn new_at(device_id: &str, config: &AppConfig, now_secs: i64) -> (r: Self)
        ensures
            r.code == 200,
            r.message@ == "操作成功"@,
            r.data.tcp_port == config.tcp_protocol_port,
            r.data.uid@ == device_id@,
            r.data.is_bind@ == "8"@,
            r.data.domain@ == config.domain@,
            r.data.host@ == config.server_ip@,
            r.data.curr_time@ == signed_decimal(now_secs as int),
            r.data.pwd@ == config.server_token@,
    {
        let mut curr_time = String::new();
        append_signed_decimal(&mut curr_time, now_secs);
        ConfigCheckResponse {
            code: 200,
            message: String::from_str("操作成功"),
            data: ConfigData {
                tcp_port: config.tcp_protocol_port,
                uid: String::from_str(device_id),
                is_bind: String::from_str("8"),
                domain: config.domain.clone(),
                host: config.server_ip.clone(),
                curr_time,
                pwd: config.server_token.clone(),
            },
        }
    }

    /// The answer for device `device_id`, stamped with the current time.
    pub fn new(device_id: &str, config: &AppConfig) -> (r: Self)
        ensures
            r.code == 200,
            r.message@ == "操作成功"@,
            r.data.tcp_port == config.tcp_protocol_port,
            r.data.uid@ == device_id@,
            r.data.is_bind@ == "8"@,
            r.data.domain@ == config.domain@,
            r.data.host@ == config.server_ip@,
            exists|t: i64| r.data.curr_time@ == signed_decimal(t as int),
            r.data.pwd@ == config.server_token@,
    {
        let now = unix_now();
        Self::new_at(device_id, config, now)
    }

    /// The answer's JSON text, keys in wire order.
    pub fn to_json(&self) -> (r: String)
        ensures
            r@ == "{\"code\":"@ + decimal(self.code as nat) + ",\"message\":"@ + json_quoted(self.message@)
                + ",\"data\":"@ + config_data_text(self.data) + "}"@,
    {
        let mut s = String::from_str("{\"code\":");
        append_decimal(&mut s, self.code as u64);
        s.append(",\"message\":");
        append_quoted(&mut s, self.message.as_str());
        s.append(",\"data\":");
        s.append("{\"tcpPort\":");
        append_decimal(&mut s, self.data.tcp_port as u64);
        s.append(",\"uid\":");
        append_quoted(&mut s, self.data.uid.as_str());
        s.append(",\"isBind\":");
        append_quoted(&mut s, self.data.is_bind.as_str());
        s.append(",\"domain\":");
        append_quoted(&mut s, self.data.domain.as_str());
        s.append(",\"updateUrl\":null,\"host\":");
        append_quoted(&mut s, self.data.host.as_str());
        s.append(",\"currTime\":");
        append_quoted(&mut s, self.data.curr_time.as_str());
        s.append(",\"pwd\":");
        append_quoted(&mut s, self.data.pwd.as_str());
        s.append(",\"version\":null}");
        s.append("}");
        assert(s@ =~= "{\"code\":"@ + decimal(self.code as nat) + ",\"message\":"@ + json_quoted(self.message@)
                + ",\"data\":"@ + config_data_text(self.data) + "}"@);
        s
    }
}

} // verus!
