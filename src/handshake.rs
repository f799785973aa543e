use vstd::prelude::*;
use crate::messages::ForwardContent;

verus! {

/// Where a camera stands in the streaming handshake.
#[derive(Debug, Clone, Copy, PartialEq, Eq, Structural)]
pub enum ProtocolState {
    Disconnected,
    Registered,
    /// The code-11 NAT probe request went out.
    NatProbeSent,
    /// The camera answered the NAT probe.
    UdpProbed,
    /// The UDP probe was answered; waiting for the final NAT response.
    WaitingForFinalNat,
    /// Code-50/51 probes are being exchanged.
    ProbeLoop,
    Streaming,
}

/// Progress of the code-50/51 probe exchange.
#[derive(Debug, Clone, Copy, PartialEq, Eq, Structural)]
pub enum ProbeState {
    NotStarted,
    InProgress { count: u32 },
    Completed,
}

/// Exchanges after which the probe loop is complete.
pub const PROBE_EXCHANGES: u32 = 3;

/// A command the operator queues for a camera; it runs on the next keepalive.
#[derive(Debug, Clone, Copy, PartialEq, Eq, Structural)]
pub enum OperatorCommand {
    /// Begin the streaming handshake with the code-11 NAT probe request.
    StartStream,
    /// Needs nothing from the camera: the latest frame is served from the
    /// ring; the keepalive is answered as usual.
    Snapshot,
    /// Tell the camera to stop streaming and drop the buffered video.
    Stop,
}

/// A message the state machine sends back on the channel the event came in on.
#[derive(Debug, Clone, Copy, PartialEq, Eq, Structural)]
pub enum Reply {
    /// `{"code":101,"status":200}`.
    Registered,
    /// The fixed 20-byte keepalive answer.
    KeepaliveAck,
    /// The code-11 NAT probe request.
    NatProbe,
    /// `{"code":21,...}` with the stream port.
    UdpProbeAnswer { port: u16 },
    /// `{"code":50}`.
    ProbeRequest,
    /// `{"code":53,"status":1}`.
    DeviceStatus,
    /// A code-301 forwarded command.
    Forward(ForwardContent),
}

/// An inbound event, by its JSON code.
#[derive(Debug, Clone, Copy, PartialEq, Eq, Structural)]
pub enum ControlEvent {
    Keepalive,
    /// Code 100 with a device id.
    Register,
    /// Code 12.
    NatResponse,
    /// Code 20.
    UdpProbe,
    /// Code 51.
    ProbeResponse,
    /// Code 301 carrying a content code: a command the camera echoes back.
    Echo { content_code: i64 },
    /// Anything else; ignored.
    Other,
}

/// The values a step needs from outside: the stream port to advertise and the
/// server time.
#[derive(Debug, Clone, Copy, PartialEq, Eq, Structural)]
pub struct StepContext {
    pub stream_port: u16,
    pub unix_secs: i64,
}

/// Handshake state of one camera.
#[derive(Debug, Clone, Copy, PartialEq, Eq, Structural)]
pub struct Handshake {
    pub state: ProtocolState,
    pub pending: Option<OperatorCommand>,
    pub probe: ProbeState,
}

/// Probe exchanges so far.
pub open spec fn probe_count(p: ProbeState) -> nat {
    match p {
        ProbeState::NotStarted => 0,
        ProbeState::InProgress { count } => count as nat,
        ProbeState::Completed => PROBE_EXCHANGES as nat,
    }
}

/// The streaming-start triplet: device status, retransmission forwarder,
/// device information request.
pub open spec fn triplet(unix_secs: i64) -> Seq<Reply> {
    seq![
        Reply::DeviceStatus,
        Reply::Forward(ForwardContent::Retransmission),
        Reply::Forward(ForwardContent::DeviceInfo { unit_timer: unix_secs }),
    ]
}

/// One transition: the next handshake state and the replies, in order.
pub open spec fn step(h: Handshake, ev: ControlEvent, ctx: StepContext) -> (Handshake, Seq<Reply>) {
    match ev {
        ControlEvent::Register => (
            Handshake { state: ProtocolState::Registered, pending: h.pending, probe: ProbeState::NotStarted },
            seq![Reply::Registered],
        ),
        ControlEvent::Keepalive => match h.pending {
            Some(OperatorCommand::StartStream) => (
                Handshake { state: ProtocolState::NatProbeSent, pending: None, probe: ProbeState::NotStarted },
                seq![Reply::NatProbe],
            ),
            Some(OperatorCommand::Stop) => (
                Handshake { pending: None, ..h },
                seq![Reply::KeepaliveAck, Reply::Forward(ForwardContent::StreamStop)],
            ),
            Some(OperatorCommand::Snapshot) => (Handshake { pending: None, ..h }, seq![Reply::KeepaliveAck]),
            None => (h, seq![Reply::KeepaliveAck]),
        },
        ControlEvent::NatResponse => match h.state {
            ProtocolState::NatProbeSent => (Handshake { state: ProtocolState::UdpProbed, ..h }, seq![]),
            ProtocolState::WaitingForFinalNat | ProtocolState::ProbeLoop => (
                Handshake { state: ProtocolState::Streaming, ..h },
                triplet(ctx.unix_secs),
            ),
            _ => (h, seq![]),
        },
        ControlEvent::UdpProbe => if h.state == ProtocolState::UdpProbed {
            (
                Handshake { state: ProtocolState::WaitingForFinalNat, ..h },
                seq![Reply::UdpProbeAnswer { port: ctx.stream_port }],
            )
        } else {
            (h, seq![])
        },
        ControlEvent::ProbeResponse => if h.state == ProtocolState::WaitingForFinalNat || h.state
            == ProtocolState::ProbeLoop {
            if probe_count(h.probe) + 1 >= PROBE_EXCHANGES {
                (
                    Handshake { state: ProtocolState::Streaming, pending: h.pending, probe: ProbeState::Completed },
                    seq![Reply::ProbeRequest],
                )
            } else {
                (
                    Handshake {
                        state: ProtocolState::ProbeLoop,
                        pending: h.pending,
                        probe: ProbeState::InProgress { count: (probe_count(h.probe) + 1) as u32 },
                    },
                    seq![Reply::ProbeRequest],
                )
            }
        } else {
            (h, seq![])
        },
        ControlEvent::Echo { content_code } => if h.state == ProtocolState::Streaming
            && content_code == 4 {
            (h, seq![Reply::Forward(ForwardContent::StreamStart)])
        } else {
            (h, seq![])
        },
        ControlEvent::Other => (h, seq![]),
    }
}

/// The event a control message stands for.
pub open spec fn event_of(code: i32, has_uid: bool, content_code: Option<i64>) -> ControlEvent {
    if code == 100 {
        if has_uid {
            ControlEvent::Register
        } else {
            ControlEvent::Other
        }
    } else if code == 12 {
        ControlEvent::NatResponse
    } else if code == 20 {
        ControlEvent::UdpProbe
    } else if code == 51 {
        ControlEvent::ProbeResponse
    } else if code == 301 {
        match content_code {
            Some(c) => ControlEvent::Echo { content_code: c },
            None => ControlEvent::Other,
        }
    } else {
        ControlEvent::Other
    }
}

impl Handshake {
    pub open spec fn spec_new() -> Self {
        Handshake { state: ProtocolState::Disconnected, pending: None, probe: ProbeState::NotStarted }
    }

    /// A camera that has not registered.
    pub fn new() -> (r: Self)
        ensures
            r == Self::spec_new(),
    {
        Handshake { state: ProtocolState::Disconnected, pending: None, probe: ProbeState::NotStarted }
    }

    /// Applies one event and returns the replies, in order.
    pub fn step(&mut self, ev: ControlEvent, ctx: StepContext) -> (r: Vec<Reply>)
        ensures
            (*final(self), r@) == step(*old(self), ev, ctx),
    {
        let h = *self;
        let mut out: Vec<Reply> = Vec::new();
        match ev {
            ControlEvent::Register => {
                *self = Handshake { state: ProtocolState::Registered, pending: h.pending, probe: ProbeState::NotStarted };
                out.push(Reply::Registered);
            },
            ControlEvent::Keepalive => {
                match h.pending {
                    Some(OperatorCommand::StartStream) => {
                        *self = Handshake { state: ProtocolState::NatProbeSent, pending: None, probe: ProbeState::NotStarted };
                        out.push(Reply::NatProbe);
                    },
                    Some(OperatorCommand::Stop) => {
                        *self = Handshake { pending: None, ..h };
                        out.push(Reply::KeepaliveAck);
                        out.push(Reply::Forward(ForwardContent::StreamStop));
                    },
                    Some(OperatorCommand::Snapshot) => {
                        *self = Handshake { pending: None, ..h };
                        out.push(Reply::KeepaliveAck);
                    },
                    None => {
                        out.push(Reply::KeepaliveAck);
                    },
                }
            },
            ControlEvent::NatResponse => {
                match h.state {
                    ProtocolState::NatProbeSent => {
                        *self = Handshake { state: ProtocolState::UdpProbed, ..h };
                    },
                    ProtocolState::WaitingForFinalNat | ProtocolState::ProbeLoop => {
                        *self = Handshake { state: ProtocolState::Streaming, ..h };
                        out.push(Reply::DeviceStatus);
                        out.push(Reply::Forward(ForwardContent::Retransmission));
                        out.push(Reply::Forward(ForwardContent::DeviceInfo { unit_timer: ctx.unix_secs }));
                    },
                    _ => {},
                }
            },
            ControlEvent::UdpProbe => {
                if h.state == ProtocolState::UdpProbed {
                    *self = Handshake { state: ProtocolState::WaitingForFinalNat, ..h };
                    out.push(Reply::UdpProbeAnswer { port: ctx.stream_port });
                }
            },
            ControlEvent::ProbeResponse => {
                if h.state == ProtocolState::WaitingForFinalNat || h.state == ProtocolState::ProbeLoop {
                    let count: u32 = match h.probe {
                        ProbeState::NotStarted => 0,
                        ProbeState::InProgress { count } => count,
                        ProbeState::Completed => PROBE_EXCHANGES,
                    };
                    if count >= PROBE_EXCHANGES - 1 {
                        *self = Handshake { state: ProtocolState::Streaming, pending: h.pending, probe: ProbeState::Completed };
                    } else {
                        *self = Handshake {
                            state: ProtocolState::ProbeLoop,
                            pending: h.pending,
                            probe: ProbeState::InProgress { count: count + 1 },
                        };
                    }
                    out.push(Reply::ProbeRequest);
                }
            },
            ControlEvent::Echo { content_code } => {
                if h.state == ProtocolState::Streaming && content_code == 4 {
                    out.push(Reply::Forward(ForwardContent::StreamStart));
                }
            },
            ControlEvent::Other => {},
        }
        proof {
            let (h2, rs) = step(h, ev, ctx);
            assert(out@ =~= rs);
        }
        out
    }
}

/// Starting from `Registered` with `StartStream` queued, the events keepalive,
/// code 12, code 20 and code 12 lead to `Streaming`. The code-11 request goes
/// out on the keepalive, the code-21 answer on the code 20, and the
/// streaming-start triplet, in order, on the final code 12 and at no other step.
pub proof fn lemma_handshake_progression(
    h: Handshake,
    c1: StepContext,
    c2: StepContext,
    c3: StepContext,
    c4: StepContext,
)
    requires
        h.state == ProtocolState::Registered,
        h.pending == Some(OperatorCommand::StartStream),
    ensures
        ({
            let (h1, r1) = step(h, ControlEvent::Keepalive, c1);
            let (h2, r2) = step(h1, ControlEvent::NatResponse, c2);
            let (h3, r3) = step(h2, ControlEvent::UdpProbe, c3);
            let (h4, r4) = step(h3, ControlEvent::NatResponse, c4);
            &&& h1.state == ProtocolState::NatProbeSent
            &&& r1 == seq![Reply::NatProbe]
            &&& h2.state == ProtocolState::UdpProbed
            &&& r2 == Seq::<Reply>::empty()
            &&& h3.state == ProtocolState::WaitingForFinalNat
            &&& r3 == seq![Reply::UdpProbeAnswer { port: c3.stream_port }]
            &&& h4.state == ProtocolState::Streaming
            &&& r4 == triplet(c4.unix_secs)
            &&& h4.pending is None
        }),
{
    let (h1, r1) = step(h, ControlEvent::Keepalive, c1);
    let (h2, r2) = step(h1, ControlEvent::NatResponse, c2);
    assert(r2 =~= Seq::<Reply>::empty());
}

} // verus!
