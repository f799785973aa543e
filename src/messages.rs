use vstd::prelude::*;
use vstd::string::StringExecFns;
use vstd::string::StringSliceAdditionalSpecFns;
use vstd::utf8::encode_utf8;
use crate::codec::{spec_encode, encode_frame, CMD_CONTROL, CMD_KEEPALIVE, MAX_PAYLOAD, FLAG_CONTROL};
use crate::handshake::{Reply, Handshake, StepContext, ControlEvent, ProtocolState, step};
use crate::config::AppConfig;
use crate::text::{decimal, signed_decimal, json_quoted, append_decimal, append_signed_decimal, append_quoted};

verus! {

/// `{"code":<code>`, the start of every control message.
pub open spec fn code_open(code: nat) -> Seq<char> {
    "{\"code\":"@ + decimal(code)
}

fn open_with_code(code: u64) -> (r: String)
    ensures
        r@ == code_open(code as nat),
{
    let mut s = String::from_str("{\"code\":");
    append_decimal(&mut s, code);
    s
}

/// `{"code":<code>,"status":<status>}`.
pub open spec fn code_status_text(code: u32, status: u32) -> Seq<char> {
    code_open(code as nat) + ",\"status\":"@ + decimal(status as nat) + "}"@
}

fn code_status_json(code: u32, status: u32) -> (r: String)
    ensures
        r@ == code_status_text(code, status),
{
    let mut s = open_with_code(code as u64);
    s.append(",\"status\":");
    append_decimal(&mut s, status as u64);
    s.append("}");
    s
}

/// Reply to a registration.
#[derive(Debug, Clone, Copy, PartialEq, Eq, Structural)]
pub struct RegistrationResponse {
    pub code: u32,
    pub status: u32,
}

impl RegistrationResponse {
    pub fn new() -> (r: Self)
        ensures
            r == (RegistrationResponse { code: 101, status: 200 }),
    {
        RegistrationResponse { code: 101, status: 200 }
    }

    /// `{"code":..,"status":..}`.
    pub fn to_json(&self) -> (r: String)
        ensures
            r@ == code_status_text(self.code, self.status),
    {
        code_status_json(self.code, self.status)
    }
}

/// Device status sent first after NAT traversal completes.
#[derive(Debug, Clone, Copy, PartialEq, Eq, Structural)]
pub struct DeviceStatusRequest {
    pub code: u32,
    pub status: u32,
}

impl DeviceStatusRequest {
    pub fn new() -> (r: Self)
        ensures
            r == (DeviceStatusRequest { code: 53, status: 1 }),
    {
        DeviceStatusRequest { code: 53, status: 1 }
    }

    /// `{"code":..,"status":..}`.
    pub fn to_json(&self) -> (r: String)
        ensures
            r@ == code_status_text(self.code, self.status),
    {
        code_status_json(self.code, self.status)
    }
}

/// `{"code":<code>}`.
pub open spec fn code_only_text(code: nat) -> Seq<char> {
    code_open(code) + "}"@
}

/// Probe request answering a device's code-51 probe response.
#[derive(Debug, Clone, Copy, PartialEq, Eq, Structural)]
pub struct Code50Request {
    pub code: u32,
}

impl Code50Request {
    pub fn new() -> (r: Self)
        ensures
            r == (Code50Request { code: 50 }),
    {
        Code50Request { code: 50 }
    }

    /// `{"code":..}`.
    pub fn to_json(&self) -> (r: String)
        ensures
            r@ == code_only_text(self.code as nat),
    {
        let mut s = open_with_code(self.code as u64);
        s.append("}");
        s
    }
}

/// `{"code":<code>,"ip":<ip>,"port":<port>}`.
pub open spec fn udp_probe_text(code: u32, ip: Seq<char>, port: u16) -> Seq<char> {
    code_open(code as nat) + ",\"ip\":"@ + json_quoted(ip) + ",\"port\":"@ + decimal(port as nat)
        + "}"@
}

/// Answer to a UDP probe: where the camera is to send its stream.
#[derive(Debug, Clone)]
pub struct UdpProbeResponse {
    pub code: u32,
    pub ip: String,
    pub port: u16,
}

impl UdpProbeResponse {
    pub fn new(config: &AppConfig, port: u16) -> (r: Self)
        ensures
            r.code == 21,
            r.ip@ == config.server_ip@,
            r.port == port,
    {
        UdpProbeResponse { code: 21, ip: config.server_ip.clone(), port }
    }

    /// `{"code":..,"ip":..,"port":..}`.
    pub fn to_json(&self) -> (r: String)
        ensures
            r@ == udp_probe_text(self.code, self.ip@, self.port),
    {
        let mut s = open_with_code(self.code as u64);
        s.append(",\"ip\":");
        append_quoted(&mut s, self.ip.as_str());
        s.append(",\"port\":");
        append_decimal(&mut s, self.port as u64);
        s.append("}");
        s
    }
}

/// The NAT probe request text, keys in the order cameras require.
pub open spec fn nat_probe_text(
    code: u32,
    target: Seq<char>,
    token: Seq<char>,
    ip: Seq<char>,
    port: u16,
    nat_ip: Seq<char>,
    nat_port: u16,
) -> Seq<char> {
    code_open(code as nat) + ",\"cliTarget\":"@ + json_quoted(target) + ",\"cliToken\":"@
        + json_quoted(token) + ",\"cliIp\":"@ + json_quoted(ip) + ",\"cliPort\":"@ + decimal(
        port as nat,
    ) + ",\"cliNatIp\":"@ + json_quoted(nat_ip) + ",\"cliNatPort\":"@ + decimal(nat_port as nat)
        + "}"@
}

/// Code-11 request that starts NAT traversal toward the server.
#[derive(Debug, Clone)]
pub struct NatProbeRequest {
    pub code: u32,
    pub cli_target: String,
    pub cli_token: String,
    pub cli_ip: String,
    pub cli_port: u16,
    pub cli_nat_ip: String,
    pub cli_nat_port: u16,
}

impl NatProbeRequest {
    pub fn new(config: &AppConfig) -> (r: Self)
        ensures
            r.code == 11,
            r.cli_target@ == config.client_target@,
            r.cli_token@ == config.client_token@,
            r.cli_ip@ == "255.255.255.255"@,
            r.cli_port == 0,
            r.cli_nat_ip@ == config.server_ip@,
            r.cli_nat_port == config.udp_protocol_port,
    {
        NatProbeRequest {
            code: 11,
            cli_target: config.client_target.clone(),
            cli_token: config.client_token.clone(),
            cli_ip: String::from_str("255.255.255.255"),
            cli_port: 0,
            cli_nat_ip: config.server_ip.clone(),
            cli_nat_port: config.udp_protocol_port,
        }
    }

    /// The request's JSON text, keys in the order cameras require.
    pub fn to_json(&self) -> (r: String)
        ensures
            r@ == nat_probe_text(
                self.code,
                self.cli_target@,
                self.cli_token@,
                self.cli_ip@,
                self.cli_port,
                self.cli_nat_ip@,
                self.cli_nat_port,
            ),
    {
        let mut s = open_with_code(self.code as u64);
        s.append(",\"cliTarget\":");
        append_quoted(&mut s, self.cli_target.as_str());
        s.append(",\"cliToken\":");
        append_quoted(&mut s, self.cli_token.as_str());
        s.append(",\"cliIp\":");
        append_quoted(&mut s, self.cli_ip.as_str());
        s.append(",\"cliPort\":");
        append_decimal(&mut s, self.cli_port as u64);
        s.append(",\"cliNatIp\":");
        append_quoted(&mut s, self.cli_nat_ip.as_str());
        s.append(",\"cliNatPort\":");
        append_decimal(&mut s, self.cli_nat_port as u64);
        s.append("}");
        s
    }
}

/// What a forwarded (code-301) command asks of the device.
#[derive(Debug, Clone, Copy, PartialEq, Eq, Structural)]
pub enum ForwardContent {
    /// Content code 298: forward retransmission requests.
    Retransmission,
    /// Content code 4: report device information; carries the server time.
    DeviceInfo { unit_timer: i64 },
    /// Content code 3: start the stream.
    StreamStart,
    /// Content code 0: stop the stream.
    StreamStop,
}

/// The JSON object of a forwarded command's content.
pub open spec fn content_text(c: ForwardContent) -> Seq<char> {
    match c {
        ForwardContent::Retransmission => code_only_text(298),
        ForwardContent::DeviceInfo { unit_timer } => "{\"unitTimer\":"@ + signed_decimal(
            unit_timer as int,
        ) + ",\"code\":4}"@,
        ForwardContent::StreamStart => code_only_text(3),
        ForwardContent::StreamStop => code_only_text(0),
    }
}

/// `{"code":<code>,"target":<target>,"content":<content>}`.
pub open spec fn forward_text(code: u32, target: Seq<char>, content: ForwardContent) -> Seq<char> {
    code_open(code as nat) + ",\"target\":"@ + json_quoted(target) + ",\"content\":"@
        + content_text(content) + "}"@
}

/// Relies on `chrono::Utc::now().timestamp()`: seconds since the Unix epoch,
/// read from the system clock.
#[verifier::external_body]
pub(crate) fn unix_now() -> (r: i64) {
    chrono::Utc::now().timestamp()
}

/// A command the device forwards to its own subsystems.
#[derive(Debug, Clone)]
pub struct ForwardCommand {
    pub code: u32,
    pub target: String,
    pub content: ForwardContent,
}

impl ForwardCommand {
    /// A code-301 command to the configured target.
    pub fn to_target(config: &AppConfig, content: ForwardContent) -> (r: Self)
        ensures
            r.code == 301,
            r.target@ == config.client_target@,
            r.content == content,
    {
        ForwardCommand { code: 301, target: config.client_target.clone(), content }
    }

    /// Content code 298.
    pub fn retransmission_request(config: &AppConfig) -> (r: Self)
        ensures
            r.code == 301,
            r.target@ == config.client_target@,
            r.content == ForwardContent::Retransmission,
    {
        Self::to_target(config, ForwardContent::Retransmission)
    }

    /// Content code 4, stamped with the server time `unit_timer`.
    pub fn device_info_request_at(config: &AppConfig, unit_timer: i64) -> (r: Self)
        ensures
            r.code == 301,
            r.target@ == config.client_target@,
            r.content == (ForwardContent::DeviceInfo { unit_timer }),
    {
        Self::to_target(config, ForwardContent::DeviceInfo { unit_timer })
    }

    /// Content code 4, stamped with the current server time.
    pub fn device_info_request(config: &AppConfig) -> (r: Self)
        ensures
            r.code == 301,
            r.target@ == config.client_target@,
            r.content is DeviceInfo,
    {
        Self::device_info_request_at(config, unix_now())
    }

    /// Content code 3.
    pub fn start_streaming_request(config: &AppConfig) -> (r: Self)
        ensures
            r.code == 301,
            r.target@ == config.client_target@,
            r.content == ForwardContent::StreamStart,
    {
        Self::to_target(config, ForwardContent::StreamStart)
    }

    /// The command's JSON text.
    pub fn to_json(&self) -> (r: String)
        ensures
            r@ == forward_text(self.code, self.target@, self.content),
    {
        let mut s = open_with_code(self.code as u64);
        s.append(",\"target\":");
        append_quoted(&mut s, self.target.as_str());
        s.append(",\"content\":");
        match self.content {
            ForwardContent::Retransmission => {
                let c = open_with_code(298);
                s.append(c.as_str());
                s.append("}");
            },
            ForwardContent::DeviceInfo { unit_timer } => {
                s.append("{\"unitTimer\":");
                append_signed_decimal(&mut s, unit_timer);
                s.append(",\"code\":4}");
            },
            ForwardContent::StreamStart => {
                let c = open_with_code(3);
                s.append(c.as_str());
                s.append("}");
            },
            ForwardContent::StreamStop => {
                let c = open_with_code(0);
                s.append(c.as_str());
                s.append("}");
            },
        }
        s.append("}");
        s
    }
}

/// A JSON control frame with packet id 0; none when the text is longer than a
/// frame's payload.
pub fn control_frame(msg_flag: u8, json: &str) -> (r: Option<Vec<u8>>)
    ensures
        match r {
            Some(b) => json.spec_bytes().len() <= MAX_PAYLOAD && b@ == spec_encode(
                CMD_CONTROL,
                msg_flag,
                0,
                json.spec_bytes(),
            ),
            None => json.spec_bytes().len() > MAX_PAYLOAD,
        },
{
    let bytes = json.as_bytes();
    if bytes.len() > MAX_PAYLOAD {
        None
    } else {
        Some(encode_frame(CMD_CONTROL, msg_flag, 0, bytes))
    }
}


/// The fixed 20-byte answer to a TCP keepalive: command 100, the all-zero ASCII
/// target, every other byte zero.
pub open spec fn keepalive_reply() -> Seq<u8> {
    spec_encode(CMD_KEEPALIVE, 0, 0, seq![])
}

/// Every TCP keepalive answer is 20 bytes: bytes 4..8 are `64 00 00 00`, bytes
/// 8..16 are ASCII zeros and the rest are zero.
pub proof fn lemma_keepalive_shape()
    ensures
        keepalive_reply().len() == 20,
        keepalive_reply()[4] == 0x64,
        forall|i: int| 8 <= i < 16 ==> #[trigger] keepalive_reply()[i] == 0x30,
        forall|i: int|
            (0 <= i < 4 || 5 <= i < 8 || 16 <= i < 20) ==> #[trigger] keepalive_reply()[i] == 0,
{
    assert(((0u32 >> 8u32) & 0xff) as u8 == 0 && ((0u32 >> 16u32) & 0xff) as u8 == 0 && ((0u32
        >> 24u32) & 0xff) as u8 == 0 && (0u32 & 0xff) as u8 == 0) by (bit_vector);
    assert((100u16 & 0xff) as u8 == 0x64 && ((100u16 >> 8u16) & 0xff) as u8 == 0) by (bit_vector);
}

/// The JSON text of a reply other than the keepalive answer.
pub open spec fn reply_text(r: Reply, cfg: AppConfig) -> Seq<char> {
    match r {
        Reply::Registered => code_status_text(101, 200),
        Reply::KeepaliveAck => seq![],
        Reply::NatProbe => nat_probe_text(
            11,
            cfg.client_target@,
            cfg.client_token@,
            "255.255.255.255"@,
            0,
            cfg.server_ip@,
            cfg.udp_protocol_port,
        ),
        Reply::UdpProbeAnswer { port } => udp_probe_text(21, cfg.server_ip@, port),
        Reply::ProbeRequest => code_only_text(50),
        Reply::DeviceStatus => code_status_text(53, 1),
        Reply::Forward(c) => forward_text(301, cfg.client_target@, c),
    }
}

/// `msg_flag` of a reply: answers to the camera's requests carry 255, commands
/// the server starts carry 0.
pub open spec fn reply_flag(r: Reply) -> u8 {
    match r {
        Reply::Registered | Reply::UdpProbeAnswer { .. } | Reply::ProbeRequest => FLAG_CONTROL,
        _ => 0,
    }
}

/// The bytes of a reply: the keepalive answer, or a control frame around the
/// reply's JSON text. None when that text exceeds a frame's payload.
pub open spec fn reply_bytes(r: Reply, cfg: AppConfig) -> Option<Seq<u8>> {
    if r == Reply::KeepaliveAck {
        Some(keepalive_reply())
    } else if encode_utf8(reply_text(r, cfg)).len() <= MAX_PAYLOAD {
        Some(spec_encode(CMD_CONTROL, reply_flag(r), 0, encode_utf8(reply_text(r, cfg))))
    } else {
        None
    }
}

/// The JSON text of a reply other than the keepalive answer.
pub fn reply_json(reply: &Reply, config: &AppConfig) -> (r: String)
    ensures
        r@ == reply_text(*reply, *config),
{
    match reply {
        Reply::Registered => RegistrationResponse::new().to_json(),
        Reply::KeepaliveAck => String::new(),
        Reply::NatProbe => NatProbeRequest::new(config).to_json(),
        Reply::UdpProbeAnswer { port } => UdpProbeResponse::new(config, *port).to_json(),
        Reply::ProbeRequest => Code50Request::new().to_json(),
        Reply::DeviceStatus => DeviceStatusRequest::new().to_json(),
        Reply::Forward(c) => ForwardCommand::to_target(config, *c).to_json(),
    }
}

/// Encodes a reply for the wire; see `reply_bytes`.
pub fn encode_reply(reply: &Reply, config: &AppConfig) -> (r: Option<Vec<u8>>)
    ensures
        match r {
            Some(b) => reply_bytes(*reply, *config) == Some(b@),
            None => reply_bytes(*reply, *config) is None,
        },
{
    if let Reply::KeepaliveAck = reply {
        let e: Vec<u8> = Vec::new();
        let b = encode_frame(CMD_KEEPALIVE, 0, 0, e.as_slice());
        assert(e@ =~= seq![]);
        return Some(b);
    }
    let flag: u8 = match reply {
        Reply::Registered | Reply::UdpProbeAnswer { .. } | Reply::ProbeRequest => FLAG_CONTROL,
        _ => 0,
    };
    let text = reply_json(reply, config);
    control_frame(flag, text.as_str())
}


/// With no operator command queued, a TCP keepalive is answered with exactly
/// the fixed 20-byte keepalive answer, and the handshake is unchanged.
pub proof fn lemma_keepalive_answer(h: Handshake, ctx: StepContext, cfg: AppConfig)
    requires
        h.pending is None,
    ensures
        step(h, ControlEvent::Keepalive, ctx) == (h, seq![Reply::KeepaliveAck]),
        reply_bytes(Reply::KeepaliveAck, cfg) == Some(keepalive_reply()),
{
}

/// In `UdpProbed`, a code-20 probe is answered with one code-21 message that
/// carries the server address and the stream port, and the handshake moves to
/// waiting for the final NAT response.
pub proof fn lemma_udp_probe_answer(h: Handshake, ctx: StepContext, cfg: AppConfig)
    requires
        h.state == ProtocolState::UdpProbed,
    ensures
        step(h, ControlEvent::UdpProbe, ctx) == (
            Handshake { state: ProtocolState::WaitingForFinalNat, ..h },
            seq![Reply::UdpProbeAnswer { port: ctx.stream_port }],
        ),
        reply_text(Reply::UdpProbeAnswer { port: ctx.stream_port }, cfg) == udp_probe_text(21, cfg.server_ip@, ctx.stream_port),
        reply_flag(Reply::UdpProbeAnswer { port: ctx.stream_port }) == FLAG_CONTROL,
{
}

} // verus!
