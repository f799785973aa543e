use vstd::prelude::*;
use crate::bucket::{RetransmissionBucket, bucket_step};
use crate::codec::ProtocolHeader;
use crate::handshake::{ControlEvent, Handshake, OperatorCommand, ProtocolState, Reply, StepContext, event_of, step};
use vstd::string::StringExecFns;
use vstd::utf8::encode_utf8;
use crate::codec::{spec_encode, CMD_CONTROL, FLAG_CONTROL, MAX_PAYLOAD};
use crate::messages::control_frame;
use crate::text::{signed_decimal, append_signed_decimal};
use crate::reassembly::{StreamBuffer, on_fragment, DEFAULT_RING_CAPACITY};

verus! {

/// A control message as parsed from its JSON text. Fields the text lacks are
/// `None`; `content_code` is the `code` inside a `content` object.
#[derive(Debug, Clone)]
pub struct ProtocolMessage {
    pub code: i32,
    pub uid: Option<String>,
    pub token: Option<String>,
    pub domain: Option<String>,
    pub status: Option<i32>,
    pub content_code: Option<i64>,
}

impl Default for ProtocolMessage {
    fn default() -> (r: Self)
        ensures
            r.code == 0,
            r.uid is None,
            r.token is None,
            r.domain is None,
            r.status is None,
            r.content_code is None,
    {
        ProtocolMessage { code: 0, uid: None, token: None, domain: None, status: None, content_code: None }
    }
}

/// `{"code":<code>,"status":<status>}`, or `{"code":<code>}` without a status.
pub open spec fn response_text(code: i32, status: Option<i32>) -> Seq<char> {
    match status {
        Some(st) => "{\"code\":"@ + signed_decimal(code as int) + ",\"status\":"@ + signed_decimal(st as int) + "}"@,
        None => "{\"code\":"@ + signed_decimal(code as int) + "}"@,
    }
}

/// A JSON control frame carrying the code and status of `message`; none when
/// the text exceeds a frame's payload.
pub fn serialize_registration_response(message: &ProtocolMessage) -> (r: Option<Vec<u8>>)
    ensures
        match r {
            Some(b) => encode_utf8(response_text(message.code, message.status)).len() <= MAX_PAYLOAD
                && b@ == spec_encode(CMD_CONTROL, FLAG_CONTROL, 0, encode_utf8(response_text(message.code, message.status))),
            None => encode_utf8(response_text(message.code, message.status)).len() > MAX_PAYLOAD,
        },
{
    let mut s = String::from_str("{\"code\":");
    append_signed_decimal(&mut s, message.code as i64);
    match message.status {
        Some(st) => {
            s.append(",\"status\":");
            append_signed_decimal(&mut s, st as i64);
        },
        None => {},
    }
    s.append("}");
    control_frame(FLAG_CONTROL, s.as_str())
}

impl ProtocolMessage {
    pub open spec fn spec_event(&self) -> ControlEvent {
        event_of(self.code, self.uid is Some, self.content_code)
    }

    /// The event this message stands for.
    pub fn event(&self) -> (r: ControlEvent)
        ensures
            r == self.spec_event(),
    {
        if self.code == 100 {
            if self.uid.is_some() {
                ControlEvent::Register
            } else {
                ControlEvent::Other
            }
        } else if self.code == 12 {
            ControlEvent::NatResponse
        } else if self.code == 20 {
            ControlEvent::UdpProbe
        } else if self.code == 51 {
            ControlEvent::ProbeResponse
        } else if self.code == 301 {
            match self.content_code {
                Some(c) => ControlEvent::Echo { content_code: c },
                None => ControlEvent::Other,
            }
        } else {
            ControlEvent::Other
        }
    }
}

fn copy_text(s: &Option<String>) -> (r: Option<String>)
    ensures
        r == *s,
{
    match s {
        Some(t) => Some(t.clone()),
        None => None,
    }
}

/// One camera, keyed by its source address.
pub struct CameraSession {
    /// Source address (IPv4 addresses in their IPv6-mapped form).
    pub ip: u128,
    /// Learned from the registration message.
    pub device_id: Option<String>,
    /// Chosen by the camera at registration.
    pub token: Option<String>,
    pub handshake: Handshake,
    /// Monotonic time of the last keepalive, in milliseconds.
    pub last_keepalive_ms: u64,
    /// The most recently observed UDP source port.
    pub last_udp_port: Option<u16>,
    pub stream_buffer: StreamBuffer,
    pub bucket: RetransmissionBucket,
}

impl CameraSession {
    pub open spec fn wf(&self) -> bool {
        self.stream_buffer.wf() && self.bucket.wf()
    }

    /// A session for a camera first heard from at `now_ms`.
    pub fn new(ip: u128, now_ms: u64) -> (r: Self)
        ensures
            r.wf(),
            r.ip == ip,
            r.device_id is None,
            r.token is None,
            r.handshake == Handshake::spec_new(),
            r.last_keepalive_ms == now_ms,
            r.last_udp_port is None,
            r.stream_buffer@.frames.len() == 0,
            r.stream_buffer@.current is None,
            r.stream_buffer@.max_frames == DEFAULT_RING_CAPACITY,
            r.stream_buffer@.history.len() == 0,
            r.bucket@.ids.len() == 0,
            r.bucket@.received.len() == 0,
            !r.bucket@.first_end_frame_seen,
    {
        CameraSession {
            ip,
            device_id: None,
            token: None,
            handshake: Handshake::new(),
            last_keepalive_ms: now_ms,
            last_udp_port: None,
            stream_buffer: StreamBuffer::new(DEFAULT_RING_CAPACITY),
            bucket: RetransmissionBucket::new(),
        }
    }

    /// A TCP keepalive at `now_ms`: refreshes the timestamp and runs a queued
    /// command. A stop also drops the buffered video.
    pub fn handle_keepalive(&mut self, now_ms: u64, ctx: StepContext) -> (r: Vec<Reply>)
        requires
            old(self).wf(),
        ensures
            final(self).wf(),
            (final(self).handshake, r@) == step(old(self).handshake, ControlEvent::Keepalive, ctx),
            final(self).last_keepalive_ms == now_ms,
            final(self).ip == old(self).ip,
            final(self).device_id == old(self).device_id,
            final(self).token == old(self).token,
            final(self).last_udp_port == old(self).last_udp_port,
            final(self).bucket@ == old(self).bucket@,
            old(self).handshake.pending == Some(OperatorCommand::Stop) ==> {
                &&& final(self).stream_buffer@.frames.len() == 0
                &&& final(self).stream_buffer@.current is None
                &&& final(self).stream_buffer@.history.len() == 0
                &&& final(self).stream_buffer@.max_frames == old(self).stream_buffer@.max_frames
            },
            old(self).handshake.pending != Some(OperatorCommand::Stop) ==> final(self).stream_buffer@
                == old(self).stream_buffer@,
    {
        self.last_keepalive_ms = now_ms;
        let stop = match self.handshake.pending {
            Some(OperatorCommand::Stop) => true,
            _ => false,
        };
        if stop {
            self.stream_buffer.clear();
        }
        self.handshake.step(ControlEvent::Keepalive, ctx)
    }

    /// A control message: registration records the device id and token; every
    /// message then drives the handshake.
    pub fn handle_control(&mut self, msg: &ProtocolMessage, ctx: StepContext) -> (r: Vec<Reply>)
        requires
            old(self).wf(),
        ensures
            final(self).wf(),
            (final(self).handshake, r@) == step(old(self).handshake, msg.spec_event(), ctx),
            msg.spec_event() == ControlEvent::Register ==> {
                &&& final(self).device_id == msg.uid
                &&& final(self).token == msg.token
            },
            msg.spec_event() != ControlEvent::Register ==> {
                &&& final(self).device_id == old(self).device_id
                &&& final(self).token == old(self).token
            },
            final(self).ip == old(self).ip,
            final(self).last_keepalive_ms == old(self).last_keepalive_ms,
            final(self).last_udp_port == old(self).last_udp_port,
            final(self).stream_buffer@ == old(self).stream_buffer@,
            final(self).bucket@ == old(self).bucket@,
    {
        let ev = msg.event();
        if let ControlEvent::Register = ev {
            self.device_id = copy_text(&msg.uid);
            self.token = copy_text(&msg.token);
        }
        self.handshake.step(ev, ctx)
    }

    /// A video or audio packet from UDP source port `src_port`: the port is
    /// remembered, a video fragment goes to the reassembler, and the packet id
    /// goes to the bucket. Returns the acknowledgement the packet calls for.
    pub fn handle_media(&mut self, header: &ProtocolHeader, payload: &[u8], src_port: u16) -> (r: Option<Vec<u32>>)
        requires
            old(self).wf(),
        ensures
            final(self).wf(),
            final(self).last_udp_port == Some(src_port),
            final(self).bucket@ == bucket_step(old(self).bucket@, header.cmd, header.msg_flag, header.pkg_id).0,
            match r {
                Some(v) => bucket_step(old(self).bucket@, header.cmd, header.msg_flag, header.pkg_id).1 == Some(v@),
                None => bucket_step(old(self).bucket@, header.cmd, header.msg_flag, header.pkg_id).1 is None,
            },
            ({
                let (cur, done) = on_fragment(old(self).stream_buffer@.current, header.cmd, header.msg_flag, header.pkg_id, payload@);
                &&& final(self).stream_buffer@.current == cur
                &&& final(self).stream_buffer@.history == match done {
                    Some(f) => old(self).stream_buffer@.history.push(f),
                    None => old(self).stream_buffer@.history,
                }
            }),
            final(self).stream_buffer@.max_frames == old(self).stream_buffer@.max_frames,
            final(self).handshake == old(self).handshake,
            final(self).ip == old(self).ip,
            final(self).device_id == old(self).device_id,
            final(self).token == old(self).token,
            final(self).last_keepalive_ms == old(self).last_keepalive_ms,
    {
        self.last_udp_port = Some(src_port);
        self.stream_buffer.add_fragment(header.cmd, header.msg_flag, header.pkg_id, payload);
        self.bucket.record(header.cmd, header.msg_flag, header.pkg_id)
    }

    /// A UDP keepalive from `src_port`: the port is remembered.
    pub fn handle_udp_keepalive(&mut self, src_port: u16)
        ensures
            final(self).last_udp_port == Some(src_port),
            final(self).ip == old(self).ip,
            final(self).device_id == old(self).device_id,
            final(self).token == old(self).token,
            final(self).handshake == old(self).handshake,
            final(self).last_keepalive_ms == old(self).last_keepalive_ms,
            final(self).stream_buffer == old(self).stream_buffer,
            final(self).bucket == old(self).bucket,
    {
        self.last_udp_port = Some(src_port);
    }

    /// Queues an operator command for the next keepalive, replacing one queued.
    pub fn queue_command(&mut self, cmd: OperatorCommand)
        ensures
            final(self).handshake == (Handshake { pending: Some(cmd), ..old(self).handshake }),
            final(self).ip == old(self).ip,
            final(self).device_id == old(self).device_id,
            final(self).token == old(self).token,
            final(self).last_keepalive_ms == old(self).last_keepalive_ms,
            final(self).last_udp_port == old(self).last_udp_port,
            final(self).stream_buffer == old(self).stream_buffer,
            final(self).bucket == old(self).bucket,
    {
        self.handshake.pending = Some(cmd);
    }

    /// Takes the queued operator command.
    pub fn take_pending_command(&mut self) -> (r: Option<OperatorCommand>)
        ensures
            r == old(self).handshake.pending,
            final(self).handshake == (Handshake { pending: None, ..old(self).handshake }),
            final(self).ip == old(self).ip,
            final(self).device_id == old(self).device_id,
            final(self).token == old(self).token,
            final(self).last_keepalive_ms == old(self).last_keepalive_ms,
            final(self).last_udp_port == old(self).last_udp_port,
            final(self).stream_buffer == old(self).stream_buffer,
            final(self).bucket == old(self).bucket,
    {
        let r = self.handshake.pending;
        self.handshake.pending = None;
        r
    }

    pub open spec fn spec_is_active(&self, now_ms: u64, idle_ms: u64) -> bool {
        now_ms < self.last_keepalive_ms || now_ms - self.last_keepalive_ms < idle_ms
    }

    /// Whether a keepalive came within the last `idle_ms` milliseconds.
    pub fn is_active(&self, now_ms: u64, idle_ms: u64) -> (r: bool)
        ensures
            r == self.spec_is_active(now_ms, idle_ms),
    {
        now_ms < self.last_keepalive_ms || now_ms - self.last_keepalive_ms < idle_ms
    }

    /// Whether the streaming handshake has completed.
    pub fn is_streaming(&self) -> (r: bool)
        ensures
            r == (self.handshake.state == ProtocolState::Streaming),
    {
        self.handshake.state == ProtocolState::Streaming
    }

    /// The most recent reassembled frame.
    pub fn latest_frame(&self) -> (r: Option<&[u8]>)
        ensures
            match r {
                Some(f) => self.stream_buffer@.frames.len() > 0 && f@ == self.stream_buffer@.frames.last(),
                None => self.stream_buffer@.frames.len() == 0,
            },
    {
        self.stream_buffer.get_latest_frame()
    }
}

} // verus!
