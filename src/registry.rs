use vstd::prelude::*;
use vstd::string::StringExecFns;
use crate::bucket::bucket_step;
use crate::codec::{Frame, FrameKind, spec_kind};
use crate::config::AppConfig;
use crate::handshake::{ProtocolState, ControlEvent, Handshake, OperatorCommand, Reply, StepContext, step};
use crate::session::{CameraSession, ProtocolMessage};
use crate::reassembly::{AssemblyView, DEFAULT_RING_CAPACITY, assembled, on_fragment};

verus! {

/// Whether a session for `ip` is in `s`.
pub open spec fn has_ip(s: Seq<CameraSession>, ip: u128) -> bool {
    exists|i: int| 0 <= i < s.len() && s[i].ip == ip
}

/// Where the session for `ip` is in `s`.
pub open spec fn index_of(s: Seq<CameraSession>, ip: u128) -> int {
    choose|i: int| 0 <= i < s.len() && s[i].ip == ip
}

/// No two sessions share an address.
pub open spec fn distinct_ips(s: Seq<CameraSession>) -> bool {
    forall|i: int, j: int| 0 <= i < s.len() && 0 <= j < s.len() && i != j ==> s[i].ip != s[j].ip
}

pub proof fn lemma_index_of(s: Seq<CameraSession>, ip: u128, i: int)
    requires
        distinct_ips(s),
        0 <= i < s.len(),
        s[i].ip == ip,
    ensures
        has_ip(s, ip),
        index_of(s, ip) == i,
{
    assert(s[i].ip == ip);
    let k = index_of(s, ip);
    assert(0 <= k < s.len() && s[k].ip == ip);
}

/// Whether `s` reported the device id `id`.
pub open spec fn device_matches(s: CameraSession, id: Seq<char>) -> bool {
    s.device_id matches Some(d) && d@ == id
}

/// The handshake of the session for `ip`, or that of a fresh session.
pub open spec fn prior_handshake(s: Seq<CameraSession>, ip: u128) -> Handshake {
    if has_ip(s, ip) {
        s[index_of(s, ip)].handshake
    } else {
        Handshake::spec_new()
    }
}

/// A session just made for `ip` at `now_ms`: nothing learned, nothing buffered.
pub open spec fn fresh_session(s: CameraSession, ip: u128, now_ms: u64) -> bool {
    &&& s.ip == ip
    &&& s.device_id is None
    &&& s.token is None
    &&& s.handshake == Handshake::spec_new()
    &&& s.last_keepalive_ms == now_ms
    &&& s.last_udp_port is None
    &&& s.stream_buffer@.frames.len() == 0
    &&& s.stream_buffer@.current is None
    &&& s.stream_buffer@.history.len() == 0
    &&& s.stream_buffer@.max_frames == DEFAULT_RING_CAPACITY
    &&& s.bucket@.ids.len() == 0
    &&& s.bucket@.received.len() == 0
    &&& !s.bucket@.first_end_frame_seen
}

/// What a TCP event leaves in the session of `ip`, beyond its handshake: the
/// keepalive time, the learned ids, and a stop's emptied video change; every
/// other field is as it was, or as in a fresh session made at `now_ms`.
pub open spec fn tcp_session_effect(
    old: Seq<CameraSession>,
    ip: u128,
    after: CameraSession,
    ev: ControlEvent,
    parsed: Option<ProtocolMessage>,
    now_ms: u64,
) -> bool {
    let stop = ev == ControlEvent::Keepalive && prior_handshake(old, ip).pending == Some(OperatorCommand::Stop);
    &&& after.ip == ip
    &&& ev == ControlEvent::Keepalive ==> after.last_keepalive_ms == now_ms
    &&& ev == ControlEvent::Register ==> after.device_id == parsed->0.uid && after.token == parsed->0.token
    &&& if has_ip(old, ip) {
        let before = old[index_of(old, ip)];
        &&& after.bucket@ == before.bucket@
        &&& after.last_udp_port == before.last_udp_port
        &&& ev != ControlEvent::Register ==> after.device_id == before.device_id && after.token == before.token
        &&& ev != ControlEvent::Keepalive ==> after.last_keepalive_ms == before.last_keepalive_ms
        &&& stop ==> {
            &&& after.stream_buffer@.frames.len() == 0
            &&& after.stream_buffer@.current is None
            &&& after.stream_buffer@.history.len() == 0
            &&& after.stream_buffer@.max_frames == before.stream_buffer@.max_frames
        }
        &&& !stop ==> after.stream_buffer@ == before.stream_buffer@
    } else {
        &&& after.bucket@.ids.len() == 0
        &&& after.bucket@.received.len() == 0
        &&& !after.bucket@.first_end_frame_seen
        &&& after.last_udp_port is None
        &&& ev != ControlEvent::Register ==> after.device_id is None && after.token is None
        &&& after.last_keepalive_ms == now_ms
        &&& after.stream_buffer@.frames.len() == 0
        &&& after.stream_buffer@.current is None
        &&& after.stream_buffer@.history.len() == 0
        &&& after.stream_buffer@.max_frames == DEFAULT_RING_CAPACITY
    }
}

/// One sweep tick on a session: see `StreamBuffer::sweep`; nothing else changes.
pub open spec fn swept(before: CameraSession, after: CameraSession) -> bool {
    &&& after.ip == before.ip
    &&& after.device_id == before.device_id
    &&& after.token == before.token
    &&& after.handshake == before.handshake
    &&& after.last_keepalive_ms == before.last_keepalive_ms
    &&& after.last_udp_port == before.last_udp_port
    &&& after.bucket@ == before.bucket@
    &&& after.stream_buffer@.max_frames == before.stream_buffer@.max_frames
    &&& match before.stream_buffer@.current {
        Some(a) => if a.stale {
            &&& after.stream_buffer@.current is None
            &&& after.stream_buffer@.history == if a.fragments.len() >= 2 {
                before.stream_buffer@.history.push(assembled(a.fragments))
            } else {
                before.stream_buffer@.history
            }
        } else {
            &&& after.stream_buffer@.current == Some(AssemblyView { stale: true, ..a })
            &&& after.stream_buffer@.history == before.stream_buffer@.history
        },
        None => after.stream_buffer@ == before.stream_buffer@,
    }
}

/// The sessions other than the one for `ip` are as they were.
pub open spec fn others_unchanged(before: Seq<CameraSession>, after: Seq<CameraSession>, ip: u128) -> bool {
    &&& before.len() <= after.len()
    &&& forall|j: int| 0 <= j < before.len() && before[j].ip != ip ==> after[j] == before[j]
}

/// The event a TCP frame brings to the session of its sender, if any.
pub open spec fn tcp_event(kind: FrameKind, parsed: Option<ProtocolMessage>) -> Option<ControlEvent> {
    if kind == FrameKind::Keepalive {
        Some(ControlEvent::Keepalive)
    } else if kind == FrameKind::Control {
        match parsed {
            Some(m) => if m.spec_event() != ControlEvent::Other {
                Some(m.spec_event())
            } else {
                None
            },
            None => None,
        }
    } else {
        None
    }
}

/// What a UDP frame calls for: replies on the control channel and a
/// retransmission acknowledgement.
pub struct UdpOutcome {
    pub replies: Vec<Reply>,
    pub ack: Option<Vec<u32>>,
}

/// Every camera session, one per source address.
pub struct CameraManager {
    pub cameras: Vec<CameraSession>,
    pub config: AppConfig,
}

impl View for CameraManager {
    type V = Seq<CameraSession>;

    open spec fn view(&self) -> Seq<CameraSession> {
        self.cameras@
    }
}

impl CameraManager {
    /// Sessions are well formed and their addresses distinct.
    pub open spec fn wf(&self) -> bool {
        &&& forall|i: int| 0 <= i < self@.len() ==> #[trigger] self@[i].wf()
        &&& distinct_ips(self@)
    }

    /// No sessions yet.
    pub fn new(config: AppConfig) -> (r: Self)
        ensures
            r.wf(),
            r@.len() == 0,
            r.config == config,
    {
        CameraManager { cameras: Vec::new(), config }
    }

    /// Where the session for `ip` is.
    pub fn find(&self, ip: u128) -> (r: Option<usize>)
        requires
            self.wf(),
        ensures
            match r {
                Some(i) => i < self@.len() && self@[i as int].ip == ip && index_of(self@, ip) == i,
                None => !has_ip(self@, ip),
            },
    {
        let mut i: usize = 0;
        while i < self.cameras.len()
            invariant
                0 <= i <= self@.len(),
                self.wf(),
                forall|j: int| 0 <= j < i ==> self@[j].ip != ip,
            decreases self@.len() - i,
        {
            if self.cameras[i].ip == ip {
                proof {
                    lemma_index_of(self@, ip, i as int);
                }
                return Some(i);
            }
            i += 1;
        }
        None
    }

    /// The session for `ip`, made at `now_ms` when there was none.
    pub fn get_or_create_camera(&mut self, ip: u128, now_ms: u64) -> (r: usize)
        requires
            old(self).wf(),
        ensures
            final(self).wf(),
            r < final(self)@.len(),
            final(self)@[r as int].ip == ip,
            index_of(final(self)@, ip) == r,
            has_ip(old(self)@, ip) ==> final(self)@ == old(self)@,
            !has_ip(old(self)@, ip) ==> {
                &&& final(self)@.len() == old(self)@.len() + 1
                &&& final(self)@.drop_last() == old(self)@
                &&& fresh_session(final(self)@[r as int], ip, now_ms)
            },
            final(self).config == old(self).config,
    {
        match self.find(ip) {
            Some(i) => i,
            None => {
                let s = CameraSession::new(ip, now_ms);
                self.cameras.push(s);
                let r = self.cameras.len() - 1;
                assert(self@.drop_last() =~= old(self)@);
                assert forall|j: int| 0 <= j < r implies self@[j].ip != ip by {
                    assert(self@[j] == old(self)@[j]);
                }
                proof {
                    lemma_index_of(self@, ip, r as int);
                }
                r
            },
        }
    }

    /// Drops the session for `ip`.
    pub fn remove_camera(&mut self, ip: u128)
        requires
            old(self).wf(),
        ensures
            final(self).wf(),
            !has_ip(final(self)@, ip),
            forall|s: CameraSession|
                #[trigger] final(self)@.contains(s) <==> old(self)@.contains(s) && s.ip != ip,
            final(self).config == old(self).config,
    {
        match self.find(ip) {
            Some(i) => {
                let ghost before = self@;
                self.cameras.remove(i);
                assert(self@ =~= before.remove(i as int));
                assert forall|s: CameraSession| #[trigger] self@.contains(s) <==> before.contains(s) && s.ip != ip by {
                    if before.contains(s) && s.ip != ip {
                        let k = choose|k: int| 0 <= k < before.len() && before[k] == s;
                        if k < i {
                            assert(self@[k] == s);
                        } else {
                            assert(self@[k - 1] == s);
                        }
                    }
                    if self@.contains(s) {
                        let k = choose|k: int| 0 <= k < self@.len() && self@[k] == s;
                        if k < i {
                            assert(before[k] == s);
                        } else {
                            assert(before[k + 1] == s);
                        }
                    }
                }
                assert forall|k: int| 0 <= k < self@.len() implies self@[k].ip != ip by {
                    if k < i {
                        assert(self@[k] == before[k]);
                    } else {
                        assert(self@[k] == before[k + 1]);
                    }
                }
            },
            None => {},
        }
    }

    /// The session for `ip`.
    pub fn get_camera(&self, ip: u128) -> (r: Option<&CameraSession>)
        requires
            self.wf(),
        ensures
            match r {
                Some(s) => has_ip(self@, ip) && *s == self@[index_of(self@, ip)],
                None => !has_ip(self@, ip),
            },
    {
        match self.find(ip) {
            Some(i) => Some(&self.cameras[i]),
            None => None,
        }
    }

    /// The address of every session, in order.
    pub fn list_cameras(&self) -> (r: Vec<u128>)
        ensures
            r@ == self@.map_values(|s: CameraSession| s.ip),
    {
        let mut r: Vec<u128> = Vec::new();
        let mut i: usize = 0;
        while i < self.cameras.len()
            invariant
                0 <= i <= self@.len(),
                r@ == self@.take(i as int).map_values(|s: CameraSession| s.ip),
            decreases self@.len() - i,
        {
            r.push(self.cameras[i].ip);
            assert(self@.take(i + 1).map_values(|s: CameraSession| s.ip) =~= self@.take(i as int).map_values(
                |s: CameraSession| s.ip,
            ).push(self@[i as int].ip));
            i += 1;
        }
        assert(self@.take(i as int) =~= self@);
        r
    }

    fn swap_in(&mut self, i: usize, s: CameraSession) -> (old_s: CameraSession)
        requires
            i < old(self)@.len(),
        ensures
            old_s == old(self)@[i as int],
            final(self)@ == old(self)@.update(i as int, s),
            final(self).config == old(self).config,
    {
        let old_s = self.cameras.remove(i);
        self.cameras.insert(i, s);
        assert(self@ =~= old(self)@.update(i as int, s));
        old_s
    }

    /// Applies a TCP frame from `ip` at `now_ms`. A keepalive, or a control
    /// message that means something (`parsed` is its JSON text, parsed), goes
    /// to the session of `ip`, which is made when there is none; the replies
    /// are returned in order. Anything else changes nothing.
    pub fn on_tcp_frame(&mut self, ip: u128, frame: &Frame, parsed: Option<ProtocolMessage>, now_ms: u64, ctx: StepContext) -> (r: Vec<Reply>)
        requires
            old(self).wf(),
        ensures
            final(self).wf(),
            final(self).config == old(self).config,
            match tcp_event(spec_kind(frame.header.cmd, frame.payload@.len()), parsed) {
                Some(ev) => {
                    let i = index_of(final(self)@, ip);
                    &&& has_ip(final(self)@, ip)
                    &&& others_unchanged(old(self)@, final(self)@, ip)
                    &&& (final(self)@[i].handshake, r@) == step(prior_handshake(old(self)@, ip), ev, ctx)
                    &&& tcp_session_effect(old(self)@, ip, final(self)@[i], ev, parsed, now_ms)
                },
                None => final(self)@ == old(self)@ && r@.len() == 0,
            },
    {
        let kind = frame.kind();
        let keepalive = match kind {
            FrameKind::Keepalive => true,
            _ => false,
        };
        let control = match kind {
            FrameKind::Control => true,
            _ => false,
        };
        let msg = match parsed {
            Some(m) => m,
            None => {
                if !keepalive {
                    return Vec::new();
                }
                ProtocolMessage { code: 0, uid: None, token: None, domain: None, status: None, content_code: None }
            },
        };
        let ev = msg.event();
        if !keepalive && !(control && !matches!(ev, ControlEvent::Other)) {
            return Vec::new();
        }
        let i = self.get_or_create_camera(ip, now_ms);
        let ghost mid = self@;
        assert(mid[i as int].wf());
        let stand_in = CameraSession::new(ip, now_ms);
        let mut s = self.swap_in(i, stand_in);
        let replies = if keepalive {
            s.handle_keepalive(now_ms, ctx)
        } else {
            s.handle_control(&msg, ctx)
        };
        let _ = self.swap_in(i, s);
        proof {
            assert(self@ =~= mid.update(i as int, s));
            assert forall|a: int, b: int| 0 <= a < self@.len() && 0 <= b < self@.len() && a != b implies self@[a].ip != self@[b].ip by {
                assert(mid[a].ip == self@[a].ip && mid[b].ip == self@[b].ip);
            }
            assert forall|a: int| 0 <= a < self@.len() implies #[trigger] self@[a].wf() by {
                if a != i {
                    assert(self@[a] == mid[a]);
                }
            }
            lemma_index_of(self@, ip, i as int);
            if has_ip(old(self)@, ip) {
                lemma_index_of(old(self)@, ip, i as int);
            } else {
                assert forall|j: int| 0 <= j < old(self)@.len() implies mid[j] == old(self)@[j] by {
                    assert(mid.drop_last()[j] == mid[j]);
                }
            }
        }
        replies
    }

    /// Applies a UDP frame from `ip`, source port `src_port`, to the session
    /// of `ip`; none is made. A keepalive is answered with an empty
    /// acknowledgement (also from an address without a session), a control
    /// message drives the handshake, and a video or audio packet goes to the
    /// reassembler and the bucket.
    pub fn on_udp_frame(&mut self, ip: u128, src_port: u16, frame: &Frame, parsed: Option<ProtocolMessage>, ctx: StepContext) -> (r: UdpOutcome)
        requires
            old(self).wf(),
        ensures
            final(self).wf(),
            final(self).config == old(self).config,
            final(self)@.len() == old(self)@.len(),
            others_unchanged(old(self)@, final(self)@, ip),
            !has_ip(old(self)@, ip) ==> {
                &&& final(self)@ == old(self)@
                &&& r.replies@.len() == 0
                &&& spec_kind(frame.header.cmd, frame.payload@.len()) == FrameKind::Keepalive ==> (r.ack matches Some(a) && a@.len() == 0)
                &&& spec_kind(frame.header.cmd, frame.payload@.len()) != FrameKind::Keepalive ==> r.ack is None
            },
            has_ip(old(self)@, ip) ==> ({
                let i = index_of(old(self)@, ip);
                let before = old(self)@[i];
                let after = final(self)@[i];
                let kind = spec_kind(frame.header.cmd, frame.payload@.len());
                let h = frame.header;
                &&& after.ip == ip
                &&& kind == FrameKind::Keepalive ==> {
                    &&& r.ack matches Some(a) && a@.len() == 0
                    &&& r.replies@.len() == 0
                    &&& after == CameraSession { last_udp_port: Some(src_port), ..before }
                }
                &&& kind == FrameKind::Control ==> match parsed {
                    Some(m) => {
                        &&& (after.handshake, r.replies@) == step(before.handshake, m.spec_event(), ctx)
                        &&& r.ack is None
                        &&& after.bucket@ == before.bucket@
                        &&& after.stream_buffer@ == before.stream_buffer@
                        &&& after.last_udp_port == before.last_udp_port
                        &&& after.last_keepalive_ms == before.last_keepalive_ms
                        &&& m.spec_event() == ControlEvent::Register ==> after.device_id == m.uid && after.token == m.token
                        &&& m.spec_event() != ControlEvent::Register ==> after.device_id == before.device_id
                            && after.token == before.token
                    },
                    None => after == before && r.replies@.len() == 0 && r.ack is None,
                }
                &&& (kind == FrameKind::Video || kind == FrameKind::Audio) ==> {
                    &&& after.bucket@ == bucket_step(before.bucket@, h.cmd, h.msg_flag, h.pkg_id).0
                    &&& match r.ack {
                        Some(a) => bucket_step(before.bucket@, h.cmd, h.msg_flag, h.pkg_id).1 == Some(a@),
                        None => bucket_step(before.bucket@, h.cmd, h.msg_flag, h.pkg_id).1 is None,
                    }
                    &&& ({
                        let (cur, done) = on_fragment(before.stream_buffer@.current, h.cmd, h.msg_flag, h.pkg_id, frame.payload@);
                        &&& after.stream_buffer@.current == cur
                        &&& after.stream_buffer@.history == match done {
                            Some(f) => before.stream_buffer@.history.push(f),
                            None => before.stream_buffer@.history,
                        }
                    })
                    &&& after.stream_buffer@.max_frames == before.stream_buffer@.max_frames
                    &&& r.replies@.len() == 0
                    &&& after.last_udp_port == Some(src_port)
                    &&& after.handshake == before.handshake
                    &&& after.device_id == before.device_id
                    &&& after.token == before.token
                    &&& after.last_keepalive_ms == before.last_keepalive_ms
                }
                &&& (kind == FrameKind::Acknowledgement || kind == FrameKind::Unknown) ==> after == before
                    && r.replies@.len() == 0 && r.ack is None
            }),
    {
        let kind = frame.kind();
        let i = match self.find(ip) {
            Some(i) => i,
            None => {
                let ack = match kind {
                    FrameKind::Keepalive => Some(Vec::new()),
                    _ => None,
                };
                return UdpOutcome { replies: Vec::new(), ack };
            },
        };
        let ghost mid = self@;
        assert(mid[i as int].wf());
        let stand_in = CameraSession::new(ip, 0);
        let mut s = self.swap_in(i, stand_in);
        let mut replies: Vec<Reply> = Vec::new();
        let mut ack: Option<Vec<u32>> = None;
        match kind {
            FrameKind::Keepalive => {
                s.handle_udp_keepalive(src_port);
                ack = Some(Vec::new());
            },
            FrameKind::Control => {
                match parsed {
                    Some(m) => {
                        replies = s.handle_control(&m, ctx);
                    },
                    None => {},
                }
            },
            FrameKind::Video | FrameKind::Audio => {
                ack = s.handle_media(&frame.header, frame.payload.as_slice(), src_port);
            },
            _ => {},
        }
        let _ = self.swap_in(i, s);
        proof {
            assert(self@ =~= mid.update(i as int, s));
            assert forall|a: int, b: int| 0 <= a < self@.len() && 0 <= b < self@.len() && a != b implies self@[a].ip != self@[b].ip by {
                assert(mid[a].ip == self@[a].ip && mid[b].ip == self@[b].ip);
            }
            assert forall|a: int| 0 <= a < self@.len() implies #[trigger] self@[a].wf() by {
                if a != i {
                    assert(self@[a] == mid[a]);
                }
            }
        }
        UdpOutcome { replies, ack }
    }

    /// Whether a UDP frame from `ip` is a code-20 probe that the session of
    /// `ip` will answer with a stream port, so that one should be bound first.
    pub fn needs_stream_port(&self, ip: u128, frame: &Frame, parsed: &Option<ProtocolMessage>) -> (r: bool)
        requires
            self.wf(),
        ensures
            r == (has_ip(self@, ip) && spec_kind(frame.header.cmd, frame.payload@.len()) == FrameKind::Control
                && (*parsed matches Some(m) && m.spec_event() == ControlEvent::UdpProbe)
                && self@[index_of(self@, ip)].handshake.state == ProtocolState::UdpProbed),
    {
        let probe = match parsed {
            Some(m) => matches!(m.event(), ControlEvent::UdpProbe),
            None => false,
        };
        let control = match frame.kind() {
            FrameKind::Control => true,
            _ => false,
        };
        if !probe || !control {
            return false;
        }
        match self.find(ip) {
            Some(i) => self.cameras[i].handshake.state == ProtocolState::UdpProbed,
            None => false,
        }
    }

    /// Queues `cmd` for the camera whose device id is `device_id`; false when
    /// there is none.
    pub fn queue_command(&mut self, device_id: &str, cmd: OperatorCommand) -> (r: bool)
        requires
            old(self).wf(),
        ensures
            final(self).wf(),
            final(self).config == old(self).config,
            final(self)@.len() == old(self)@.len(),
            r ==> exists|i: int|
                0 <= i < old(self)@.len() && device_matches(#[trigger] old(self)@[i], device_id@)
                    && final(self)@ == old(self)@.update(i, CameraSession { handshake: Handshake { pending: Some(cmd), ..old(self)@[i].handshake }, ..old(self)@[i] }),
            !r ==> final(self)@ == old(self)@ && forall|i: int| 0 <= i < old(self)@.len() ==> !device_matches(#[trigger] old(self)@[i], device_id@),
    {
        match self.find_device(device_id) {
            Some(i) => {
                let ghost mid = self@;
                let ip = self.cameras[i].ip;
                let stand_in = CameraSession::new(ip, 0);
                assert(mid[i as int].wf());
                let mut s = self.swap_in(i, stand_in);
                s.queue_command(cmd);
                let _ = self.swap_in(i, s);
                proof {
                    assert(self@ =~= mid.update(i as int, s));
                    assert forall|a: int, b: int| 0 <= a < self@.len() && 0 <= b < self@.len() && a != b implies self@[a].ip != self@[b].ip by {
                        assert(mid[a].ip == self@[a].ip && mid[b].ip == self@[b].ip);
                    }
                    assert forall|a: int| 0 <= a < self@.len() implies #[trigger] self@[a].wf() by {
                        if a != i {
                            assert(self@[a] == mid[a]);
                        }
                    }
                }
                true
            },
            None => false,
        }
    }

    /// Drops every session without a keepalive in the last `idle_ms`
    /// milliseconds; the others stay, in order.
    pub fn expire_idle(&mut self, now_ms: u64, idle_ms: u64)
        requires
            old(self).wf(),
        ensures
            final(self).wf(),
            final(self).config == old(self).config,
            final(self)@ == old(self)@.filter(|s: CameraSession| s.spec_is_active(now_ms, idle_ms)),
    {
        let mut rest: Vec<CameraSession> = Vec::new();
        std::mem::swap(&mut rest, &mut self.cameras);
        let ghost orig = rest@;
        let ghost pred = |s: CameraSession| s.spec_is_active(now_ms, idle_ms);
        let mut kept: Vec<CameraSession> = Vec::new();
        let ghost mut k: int = 0;
        assert(orig.take(0).filter(pred) =~= Seq::<CameraSession>::empty());
        assert(orig.skip(0) =~= orig);
        while rest.len() > 0
            invariant
                0 <= k <= orig.len(),
                distinct_ips(orig),
                forall|a: int| 0 <= a < orig.len() ==> #[trigger] orig[a].wf(),
                kept@ == orig.take(k).filter(pred),
                rest@ == orig.skip(k),
                distinct_ips(kept@),
                forall|a: int| 0 <= a < kept@.len() ==> #[trigger] kept@[a].wf(),
                forall|a: int, b: int| 0 <= a < kept@.len() && 0 <= b < rest@.len() ==> kept@[a].ip != rest@[b].ip,
                self.config == old(self).config,
                pred == (|s: CameraSession| s.spec_is_active(now_ms, idle_ms)),
            decreases rest@.len(),
        {
            let s = rest.remove(0);
            assert(s == orig[k]);
            assert(orig.take(k + 1).drop_last() =~= orig.take(k));
            assert(orig.take(k + 1).last() == orig[k]);
            assert(pred(s) == s.spec_is_active(now_ms, idle_ms));
            reveal(Seq::filter);
            assert(orig.take(k + 1).filter(pred) == if pred(orig[k]) {
                orig.take(k).filter(pred).push(orig[k])
            } else {
                orig.take(k).filter(pred)
            });
            assert(rest@ =~= orig.skip(k + 1));
            assert forall|b: int| 0 <= b < rest@.len() implies s.ip != rest@[b].ip by {
                assert(rest@[b] == orig[k + 1 + b]);
            }
            if s.is_active(now_ms, idle_ms) {
                let ghost before = kept@;
                kept.push(s);
                assert forall|a: int, b: int| 0 <= a < kept@.len() && 0 <= b < rest@.len() implies kept@[a].ip != rest@[b].ip by {
                    if a < before.len() {
                        assert(kept@[a] == before[a]);
                    }
                }
                assert forall|a: int| 0 <= a < kept@.len() implies #[trigger] kept@[a].wf() by {
                    if a < before.len() {
                        assert(kept@[a] == before[a]);
                    }
                }
            }
            proof {
                k = k + 1;
            }
        }
        assert(orig.take(k) =~= orig);
        self.cameras = kept;
    }

    /// One tick of the periodic sweep on every session: assemblies older than
    /// one tick are finalized or discarded, newer ones marked (see
    /// `StreamBuffer::sweep`).
    pub fn sweep_incomplete(&mut self)
        requires
            old(self).wf(),
        ensures
            final(self).wf(),
            final(self).config == old(self).config,
            final(self)@.len() == old(self)@.len(),
            forall|i: int| 0 <= i < final(self)@.len() ==> swept(old(self)@[i], #[trigger] final(self)@[i]),
    {
        let mut i: usize = 0;
        while i < self.cameras.len()
            invariant
                0 <= i <= self@.len(),
                self@.len() == old(self)@.len(),
                self.wf(),
                self.config == old(self).config,
                forall|a: int| 0 <= a < i ==> swept(old(self)@[a], #[trigger] self@[a]),
                forall|a: int| i <= a < self@.len() ==> (#[trigger] self@[a]) == old(self)@[a],
            decreases self@.len() - i,
        {
            let ghost mid = self@;
            let ip = self.cameras[i].ip;
            let stand_in = CameraSession::new(ip, 0);
            assert(mid[i as int].wf());
            let mut s = self.swap_in(i, stand_in);
            s.stream_buffer.sweep();
            assert(s.wf());
            let _ = self.swap_in(i, s);
            proof {
                assert(self@ =~= mid.update(i as int, s));
                assert forall|a: int, b: int| 0 <= a < self@.len() && 0 <= b < self@.len() && a != b implies self@[a].ip != self@[b].ip by {
                    assert(mid[a].ip == self@[a].ip && mid[b].ip == self@[b].ip);
                }
                assert forall|a: int| 0 <= a < self@.len() implies #[trigger] self@[a].wf() by {
                    if a != i {
                        assert(self@[a] == mid[a]);
                    }
                }
            }
            i += 1;
        }
    }

    /// Where the session whose device id is `device_id` is (the first, should
    /// two cameras report the same id).
    pub fn find_device(&self, device_id: &str) -> (r: Option<usize>)
        ensures
            match r {
                Some(i) => i < self@.len() && device_matches(self@[i as int], device_id@)
                    && forall|j: int| 0 <= j < i ==> !device_matches(#[trigger] self@[j], device_id@),
                None => forall|i: int| 0 <= i < self@.len() ==> !device_matches(#[trigger] self@[i], device_id@),
            },
    {
        let wanted = String::from_str(device_id);
        let mut i: usize = 0;
        while i < self.cameras.len()
            invariant
                0 <= i <= self@.len(),
                wanted@ == device_id@,
                forall|j: int| 0 <= j < i ==> !device_matches(#[trigger] self@[j], device_id@),
            decreases self@.len() - i,
        {
            let hit = match &self.cameras[i].device_id {
                Some(d) => *d == wanted,
                None => false,
            };
            if hit {
                return Some(i);
            }
            i += 1;
        }
        None
    }

    /// The session whose device id is `device_id`.
    pub fn session_info(&self, device_id: &str) -> (r: Option<&CameraSession>)
        ensures
            match r {
                Some(s) => device_matches(*s, device_id@) && self@.contains(*s),
                None => forall|i: int| 0 <= i < self@.len() ==> !device_matches(#[trigger] self@[i], device_id@),
            },
    {
        match self.find_device(device_id) {
            Some(i) => {
                Some(&self.cameras[i])
            },
            None => None,
        }
    }

    /// The latest reassembled frame of the (first) camera whose device id is
    /// `device_id`; none when there is no such camera or it has no frame yet.
    pub fn latest_frame(&self, device_id: &str) -> (r: Option<&[u8]>)
        ensures
            match r {
                Some(f) => exists|i: int|
                    0 <= i < self@.len() && device_matches(#[trigger] self@[i], device_id@)
                        && self@[i].stream_buffer@.frames.len() > 0 && f@ == self@[i].stream_buffer@.frames.last(),
                None => forall|i: int|
                    0 <= i < self@.len() && device_matches(#[trigger] self@[i], device_id@)
                        ==> exists|j: int| 0 <= j <= i && device_matches(#[trigger] self@[j], device_id@)
                        && self@[j].stream_buffer@.frames.len() == 0,
            },
    {
        match self.find_device(device_id) {
            Some(i) => {
                let r = self.cameras[i].latest_frame();
                proof {
                    if r is None {
                        assert forall|k: int| 0 <= k < self@.len() && device_matches(#[trigger] self@[k], device_id@)
                            implies exists|j: int| 0 <= j <= k && device_matches(#[trigger] self@[j], device_id@)
                                && self@[j].stream_buffer@.frames.len() == 0 by {
                            assert(device_matches(self@[i as int], device_id@));
                        }
                    }
                }
                r
            },
            None => None,
        }
    }
}

} // verus!
