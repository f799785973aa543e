use vstd::prelude::*;
use vstd::slice::{slice_subrange, slice_to_vec};
use crate::wire::{le16, le32, from_le16, from_le32, push_le16, push_le32, read_le16, read_le32};
use crate::wire::{lemma_le16_round_trip, lemma_le32_round_trip, lemma_from_le16_round_trip, lemma_from_le32_round_trip};

verus! {

broadcast use vstd::array::group_array_axioms;

/// Size of the envelope that precedes every payload.
pub const HEADER_SIZE: usize = 20;

/// Largest payload a frame carries: the 64 KiB frame limit less the envelope.
pub const MAX_PAYLOAD: usize = 65516;

/// Generic JSON control message.
pub const CMD_CONTROL: u16 = 0;
/// Video (JPEG) fragment.
pub const CMD_VIDEO: u16 = 1;
/// Audio fragments.
pub const CMD_AUDIO_G711: u16 = 4;
pub const CMD_AUDIO_PCM: u16 = 6;
pub const CMD_AUDIO_AVI: u16 = 7;
/// Keepalive commands.
pub const CMD_KEEPALIVE_REQUEST: u16 = 99;
pub const CMD_KEEPALIVE: u16 = 100;
/// Retransmission acknowledgement.
pub const CMD_ACK: u16 = 605;

/// Fragment terminators of a video packet.
pub const FLAG_FRAME_START: u8 = 250;
pub const FLAG_FRAME_MIDDLE: u8 = 251;
pub const FLAG_FRAME_END: u8 = 252;
/// `msg_flag` of a control message.
pub const FLAG_CONTROL: u8 = 255;

/// ASCII '0': the server's target identifier is eight of them.
pub const TARGET_ZERO: u8 = 0x30;

/// The eight ASCII zeros of the server's target identifier.
pub open spec fn zero_target() -> Seq<u8> {
    Seq::new(8, |i: int| TARGET_ZERO)
}

/// Why a byte string is not a frame.
#[derive(Debug, Clone, Copy, PartialEq, Eq, Structural)]
pub enum CodecError {
    /// Fewer bytes than the envelope.
    Short,
    /// The envelope announces more payload than follows it, or a list of
    /// packet ids is not a whole number of 4-byte ids.
    BadLength,
}

/// The 20-byte envelope, little-endian throughout.
#[derive(Debug, Clone, Copy)]
pub struct ProtocolHeader {
    pub length: u32,
    pub cmd: u16,
    pub msg_flag: u8,
    pub deal_fl: u8,
    pub fwd_id: [u8; 8],
    pub pkg_id: u32,
}

impl ProtocolHeader {
    /// The envelope's bytes on the wire.
    pub open spec fn spec_bytes(&self) -> Seq<u8> {
        le32(self.length) + le16(self.cmd) + seq![self.msg_flag, self.deal_fl] + self.fwd_id@
            + le32(self.pkg_id)
    }

    /// The envelope read from the first 20 bytes of `d`.
    pub open spec fn parsed_from(&self, d: Seq<u8>) -> bool {
        &&& d.len() >= 20
        &&& self.length == from_le32(d[0], d[1], d[2], d[3])
        &&& self.cmd == from_le16(d[4], d[5])
        &&& self.msg_flag == d[6]
        &&& self.deal_fl == d[7]
        &&& self.fwd_id@ == d.subrange(8, 16)
        &&& self.pkg_id == from_le32(d[16], d[17], d[18], d[19])
    }

    /// A server-side envelope: no deal flag and the all-zero ASCII target.
    pub open spec fn is_server(&self, cmd: u16, length: u32, msg_flag: u8, pkg_id: u32) -> bool {
        &&& self.length == length
        &&& self.cmd == cmd
        &&& self.msg_flag == msg_flag
        &&& self.deal_fl == 0
        &&& self.fwd_id@ == zero_target()
        &&& self.pkg_id == pkg_id
    }

    /// Reads the envelope; the rest of `data` follows it.
    pub fn from_bytes(data: &[u8]) -> (r: Result<(ProtocolHeader, &[u8]), CodecError>)
        ensures
            match r {
                Ok((h, rest)) => {
                    &&& h.parsed_from(data@)
                    &&& h.spec_bytes() == data@.subrange(0, 20)
                    &&& rest@ == data@.subrange(20, data@.len() as int)
                },
                Err(e) => data@.len() < 20 && e == CodecError::Short,
            },
    {
        if data.len() < HEADER_SIZE {
            return Err(CodecError::Short);
        }
        let length = read_le32(data, 0);
        let cmd = read_le16(data, 4);
        let fwd_id: [u8; 8] = [
            data[8],
            data[9],
            data[10],
            data[11],
            data[12],
            data[13],
            data[14],
            data[15],
        ];
        let h = ProtocolHeader {
            length,
            cmd,
            msg_flag: data[6],
            deal_fl: data[7],
            fwd_id,
            pkg_id: read_le32(data, 16),
        };
        assert(h.fwd_id@ =~= data@.subrange(8, 16));
        proof {
            lemma_from_le32_round_trip(data@[0], data@[1], data@[2], data@[3]);
            lemma_from_le16_round_trip(data@[4], data@[5]);
            lemma_from_le32_round_trip(data@[16], data@[17], data@[18], data@[19]);
        }
        assert(h.spec_bytes() =~= data@.subrange(0, 20));
        let rest = slice_subrange(data, HEADER_SIZE, data.len());
        Ok((h, rest))
    }

    /// Writes the envelope.
    pub fn to_bytes(&self) -> (r: Vec<u8>)
        ensures
            r@ == self.spec_bytes(),
            r@.len() == 20,
    {
        let mut out: Vec<u8> = Vec::with_capacity(HEADER_SIZE);
        push_le32(&mut out, self.length);
        push_le16(&mut out, self.cmd);
        out.push(self.msg_flag);
        out.push(self.deal_fl);
        let mut i: usize = 0;
        while i < 8
            invariant
                0 <= i <= 8,
                out@ == le32(self.length) + le16(self.cmd) + seq![self.msg_flag, self.deal_fl]
                    + self.fwd_id@.take(i as int),
            decreases 8 - i,
        {
            out.push(self.fwd_id[i]);
            assert(self.fwd_id@.take(i + 1) =~= self.fwd_id@.take(i as int).push(self.fwd_id@[i as int]));
            i += 1;
        }
        assert(self.fwd_id@.take(8) =~= self.fwd_id@);
        push_le32(&mut out, self.pkg_id);
        out
    }

    /// A server-side envelope.
    pub fn new(cmd: u16, length: u32, msg_flag: u8, pkg_id: u32) -> (r: Self)
        ensures
            r.is_server(cmd, length, msg_flag, pkg_id),
    {
        let r = ProtocolHeader {
            length,
            cmd,
            msg_flag,
            deal_fl: 0,
            fwd_id: [TARGET_ZERO; 8],
            pkg_id,
        };
        assert(r.fwd_id@ =~= zero_target());
        r
    }

    /// Envelope of a JSON control message.
    pub fn json(pkg_id: u32, json_length: usize) -> (r: Self)
        ensures
            r.is_server(CMD_CONTROL, json_length as u32, FLAG_CONTROL, pkg_id),
    {
        Self::new(CMD_CONTROL, json_length as u32, FLAG_CONTROL, pkg_id)
    }

    /// Envelope of a binary message with command `cmd`.
    pub fn binary(cmd: u8, pkg_id: u32, data_length: usize) -> (r: Self)
        ensures
            r.is_server(cmd as u16, data_length as u32, FLAG_CONTROL, pkg_id),
    {
        Self::new(cmd as u16, data_length as u32, FLAG_CONTROL, pkg_id)
    }

    /// Envelope of a video fragment.
    pub fn video_frame(pkg_id: u32, frame_length: usize, msg_flag: u8) -> (r: Self)
        ensures
            r.is_server(CMD_VIDEO, frame_length as u32, msg_flag, pkg_id),
    {
        Self::new(CMD_VIDEO, frame_length as u32, msg_flag, pkg_id)
    }

    /// Envelope of an audio fragment.
    pub fn audio_frame(pkg_id: u32, audio_length: usize) -> (r: Self)
        ensures
            r.is_server(CMD_AUDIO_G711, audio_length as u32, FLAG_CONTROL, pkg_id),
    {
        Self::new(CMD_AUDIO_G711, audio_length as u32, FLAG_CONTROL, pkg_id)
    }

    /// Envelope of a keepalive.
    pub fn heartbeat(pkg_id: u32) -> (r: Self)
        ensures
            r.is_server(CMD_KEEPALIVE, 20, FLAG_CONTROL, pkg_id),
    {
        Self::new(CMD_KEEPALIVE, 20, FLAG_CONTROL, pkg_id)
    }

    /// Envelope of a retransmission acknowledgement of `data_length` bytes.
    pub fn retransmission(pkg_id: u32, data_length: usize) -> (r: Self)
        ensures
            r.is_server(CMD_ACK, data_length as u32, FLAG_CONTROL, pkg_id),
    {
        Self::new(CMD_ACK, data_length as u32, FLAG_CONTROL, pkg_id)
    }

    /// Envelope of a retransmission acknowledgement of `pkg_count` packet ids.
    pub fn retransmission_confirm(pkg_count: u32) -> (r: Self)
        requires
            pkg_count <= u32::MAX / 4,
        ensures
            r.is_server(CMD_ACK, (pkg_count * 4) as u32, FLAG_CONTROL, 0),
    {
        Self::new(CMD_ACK, pkg_count * 4, FLAG_CONTROL, 0)
    }
}


/// The bytes of a server-emitted frame: envelope, then payload.
pub open spec fn spec_encode(cmd: u16, msg_flag: u8, pkg_id: u32, payload: Seq<u8>) -> Seq<u8> {
    le32(payload.len() as u32) + le16(cmd) + seq![msg_flag, 0u8] + zero_target() + le32(pkg_id)
        + payload
}

/// A decoded frame, as values.
pub struct FrameView {
    pub cmd: u16,
    pub msg_flag: u8,
    pub deal_flag: u8,
    pub fwd_id: Seq<u8>,
    pub pkg_id: u32,
    pub payload: Seq<u8>,
}

/// What a byte string decodes to: the envelope and the `length` bytes after it.
pub open spec fn spec_decode(b: Seq<u8>) -> Result<FrameView, CodecError> {
    if b.len() < 20 {
        Err(CodecError::Short)
    } else if 20 + from_le32(b[0], b[1], b[2], b[3]) > b.len() {
        Err(CodecError::BadLength)
    } else {
        Ok(
            FrameView {
                cmd: from_le16(b[4], b[5]),
                msg_flag: b[6],
                deal_flag: b[7],
                fwd_id: b.subrange(8, 16),
                pkg_id: from_le32(b[16], b[17], b[18], b[19]),
                payload: b.subrange(20, 20 + from_le32(b[0], b[1], b[2], b[3])),
            },
        )
    }
}

/// Encoding a frame and decoding the bytes gives back the command, flag,
/// packet id and payload that were encoded.
pub proof fn lemma_codec_round_trip(cmd: u16, msg_flag: u8, pkg_id: u32, payload: Seq<u8>)
    requires
        payload.len() <= MAX_PAYLOAD,
    ensures
        spec_decode(spec_encode(cmd, msg_flag, pkg_id, payload)) == Ok::<FrameView, CodecError>(
            FrameView {
                cmd,
                msg_flag,
                deal_flag: 0,
                fwd_id: zero_target(),
                pkg_id,
                payload,
            },
        ),
{
    let b = spec_encode(cmd, msg_flag, pkg_id, payload);
    let len = payload.len() as u32;
    lemma_le32_round_trip(len);
    lemma_le16_round_trip(cmd);
    lemma_le32_round_trip(pkg_id);
    assert(b[0] == le32(len)[0] && b[1] == le32(len)[1] && b[2] == le32(len)[2] && b[3] == le32(len)[3]);
    assert(b[4] == le16(cmd)[0] && b[5] == le16(cmd)[1]);
    assert(b[16] == le32(pkg_id)[0] && b[17] == le32(pkg_id)[1] && b[18] == le32(pkg_id)[2] && b[19]
        == le32(pkg_id)[3]);
    assert(b.subrange(8, 16) =~= zero_target());
    assert(b.subrange(20, 20 + len) =~= payload);
}

/// A frame: envelope and payload.
pub struct Frame {
    pub header: ProtocolHeader,
    pub payload: Vec<u8>,
}

impl View for Frame {
    type V = FrameView;

    open spec fn view(&self) -> FrameView {
        FrameView {
            cmd: self.header.cmd,
            msg_flag: self.header.msg_flag,
            deal_flag: self.header.deal_fl,
            fwd_id: self.header.fwd_id@,
            pkg_id: self.header.pkg_id,
            payload: self.payload@,
        }
    }
}

/// What a frame carries, by its command.
#[derive(Debug, Clone, Copy, PartialEq, Eq, Structural)]
pub enum FrameKind {
    /// A keepalive: an empty control message, or command 99 or 100.
    Keepalive,
    /// A JSON control message.
    Control,
    /// A video fragment.
    Video,
    /// An audio fragment.
    Audio,
    /// A retransmission acknowledgement.
    Acknowledgement,
    /// Any other command.
    Unknown,
}

pub open spec fn spec_kind(cmd: u16, payload_len: nat) -> FrameKind {
    if (cmd == CMD_CONTROL && payload_len == 0) || cmd == CMD_KEEPALIVE_REQUEST || cmd
        == CMD_KEEPALIVE {
        FrameKind::Keepalive
    } else if cmd == CMD_CONTROL {
        FrameKind::Control
    } else if cmd == CMD_VIDEO {
        FrameKind::Video
    } else if cmd == CMD_AUDIO_G711 || cmd == CMD_AUDIO_PCM || cmd == CMD_AUDIO_AVI {
        FrameKind::Audio
    } else if cmd == CMD_ACK {
        FrameKind::Acknowledgement
    } else {
        FrameKind::Unknown
    }
}

/// `b` without its leading NUL bytes.
pub open spec fn strip_nuls(b: Seq<u8>) -> Seq<u8>
    decreases b.len(),
{
    if b.len() > 0 && b[0] == 0 {
        strip_nuls(b.drop_first())
    } else {
        b
    }
}

/// `n` NUL bytes.
pub open spec fn nuls(n: nat) -> Seq<u8> {
    Seq::new(n, |i: int| 0u8)
}

/// The JSON text of a control payload: the payload without leading NULs.
pub fn json_body(payload: &[u8]) -> (r: &[u8])
    ensures
        r@ == strip_nuls(payload@),
{
    let mut i: usize = 0;
    assert(payload@.subrange(0, payload@.len() as int) =~= payload@);
    while i < payload.len() && payload[i] == 0
        invariant
            0 <= i <= payload@.len(),
            strip_nuls(payload@) == strip_nuls(payload@.subrange(i as int, payload@.len() as int)),
        decreases payload@.len() - i,
    {
        assert(payload@.subrange(i as int, payload@.len() as int).drop_first() =~= payload@.subrange(
            i + 1,
            payload@.len() as int,
        ));
        i += 1;
    }
    slice_subrange(payload, i, payload.len())
}

/// Prefixing a JSON text (which never starts with NUL) with NUL bytes leaves
/// the text that is handed to the JSON parser unchanged.
pub proof fn lemma_strip_nul_prefix(k: nat, body: Seq<u8>)
    requires
        body.len() == 0 || body[0] != 0,
    ensures
        strip_nuls(nuls(k) + body) == body,
    decreases k,
{
    if k == 0 {
        assert(nuls(0) + body =~= body);
    } else {
        assert((nuls(k) + body).drop_first() =~= nuls((k - 1) as nat) + body);
        lemma_strip_nul_prefix((k - 1) as nat, body);
    }
}

/// A control frame whose JSON text is prefixed with 1 to 8 NUL bytes yields
/// the same JSON text as the frame without them.
pub proof fn lemma_leading_nul_tolerance(msg_flag: u8, pkg_id: u32, body: Seq<u8>, k: nat)
    requires
        1 <= k <= 8,
        body.len() > 0,
        body[0] != 0,
        body.len() + k <= MAX_PAYLOAD,
    ensures
        spec_decode(spec_encode(CMD_CONTROL, msg_flag, pkg_id, nuls(k) + body)) is Ok,
        spec_decode(spec_encode(CMD_CONTROL, msg_flag, pkg_id, body)) is Ok,
        strip_nuls(spec_decode(spec_encode(CMD_CONTROL, msg_flag, pkg_id, nuls(k) + body))->Ok_0.payload)
            == strip_nuls(spec_decode(spec_encode(CMD_CONTROL, msg_flag, pkg_id, body))->Ok_0.payload),
        spec_kind(CMD_CONTROL, (nuls(k) + body).len()) == FrameKind::Control,
{
    lemma_codec_round_trip(CMD_CONTROL, msg_flag, pkg_id, nuls(k) + body);
    lemma_codec_round_trip(CMD_CONTROL, msg_flag, pkg_id, body);
    lemma_strip_nul_prefix(k, body);
    lemma_strip_nul_prefix(0, body);
    assert(nuls(0) + body =~= body);
}

/// Encodes a server frame: the envelope (no deal flag, all-zero ASCII target)
/// and the payload.
pub fn encode_frame(cmd: u16, msg_flag: u8, pkg_id: u32, payload: &[u8]) -> (r: Vec<u8>)
    requires
        payload@.len() <= MAX_PAYLOAD,
    ensures
        r@ == spec_encode(cmd, msg_flag, pkg_id, payload@),
{
    let h = ProtocolHeader::new(cmd, payload.len() as u32, msg_flag, pkg_id);
    let mut out = h.to_bytes();
    out.extend_from_slice(payload);
    assert(h.spec_bytes() =~= le32(payload@.len() as u32) + le16(cmd) + seq![msg_flag, 0u8]
        + zero_target() + le32(pkg_id));
    out
}

/// Decodes a frame: the envelope and the `length` bytes after it. Bytes beyond
/// those are not part of the frame.
pub fn decode_frame(data: &[u8]) -> (r: Result<Frame, CodecError>)
    ensures
        match r {
            Ok(f) => spec_decode(data@) == Ok::<FrameView, CodecError>(f@),
            Err(e) => spec_decode(data@) == Err::<FrameView, CodecError>(e),
        },
{
    let (header, rest) = match ProtocolHeader::from_bytes(data) {
        Ok(p) => p,
        Err(e) => return Err(e),
    };
    if header.length as usize > rest.len() {
        return Err(CodecError::BadLength);
    }
    let body = slice_subrange(rest, 0, header.length as usize);
    let payload = slice_to_vec(body);
    assert(payload@ =~= data@.subrange(20, 20 + header.length));
    Ok(Frame { header, payload })
}

impl Frame {
    /// What the frame carries.
    pub fn kind(&self) -> (r: FrameKind)
        ensures
            r == spec_kind(self.header.cmd, self.payload@.len()),
    {
        let cmd = self.header.cmd;
        if (cmd == CMD_CONTROL && self.payload.len() == 0) || cmd == CMD_KEEPALIVE_REQUEST || cmd
            == CMD_KEEPALIVE {
            FrameKind::Keepalive
        } else if cmd == CMD_CONTROL {
            FrameKind::Control
        } else if cmd == CMD_VIDEO {
            FrameKind::Video
        } else if cmd == CMD_AUDIO_G711 || cmd == CMD_AUDIO_PCM || cmd == CMD_AUDIO_AVI {
            FrameKind::Audio
        } else if cmd == CMD_ACK {
            FrameKind::Acknowledgement
        } else {
            FrameKind::Unknown
        }
    }

    /// The JSON text of a control frame.
    pub fn json_text(&self) -> (r: &[u8])
        ensures
            r@ == strip_nuls(self.payload@),
    {
        json_body(self.payload.as_slice())
    }
}


/// The little-endian bytes of a list of packet ids.
pub open spec fn ids_bytes(ids: Seq<u32>) -> Seq<u8>
    decreases ids.len(),
{
    if ids.len() == 0 {
        seq![]
    } else {
        ids_bytes(ids.drop_last()) + le32(ids.last())
    }
}

/// The packet ids read from consecutive 4-byte little-endian groups.
pub open spec fn ids_of(b: Seq<u8>) -> Seq<u32> {
    Seq::new(b.len() / 4, |i: int| from_le32(b[4 * i], b[4 * i + 1], b[4 * i + 2], b[4 * i + 3]))
}

proof fn lemma_ids_bytes_len(ids: Seq<u32>)
    ensures
        ids_bytes(ids).len() == 4 * ids.len(),
    decreases ids.len(),
{
    if ids.len() > 0 {
        lemma_ids_bytes_len(ids.drop_last());
    }
}

proof fn lemma_ids_bytes_at(ids: Seq<u32>, i: int, j: int)
    requires
        0 <= i < ids.len(),
        0 <= j < 4,
    ensures
        ids_bytes(ids)[4 * i + j] == le32(ids[i])[j],
    decreases ids.len(),
{
    let pre = ids.drop_last();
    lemma_ids_bytes_len(pre);
    if i < pre.len() {
        lemma_ids_bytes_at(pre, i, j);
        assert(4 * i + j < 4 * pre.len()) by (nonlinear_arith)
            requires
                i < pre.len(),
                0 <= j < 4,
        ;
    }
}

/// Reading back the bytes of a list of packet ids gives the list.
pub proof fn lemma_ids_round_trip(ids: Seq<u32>)
    ensures
        ids_bytes(ids).len() % 4 == 0,
        ids_of(ids_bytes(ids)) == ids,
{
    lemma_ids_bytes_len(ids);
    let b = ids_bytes(ids);
    assert(b.len() / 4 == ids.len()) by (nonlinear_arith)
        requires
            b.len() == 4 * ids.len(),
    ;
    assert(b.len() % 4 == 0) by (nonlinear_arith)
        requires
            b.len() == 4 * ids.len(),
    ;
    assert forall|i: int| 0 <= i < ids.len() implies #[trigger] ids_of(b)[i] == ids[i] by {
        lemma_ids_bytes_at(ids, i, 0);
        lemma_ids_bytes_at(ids, i, 1);
        lemma_ids_bytes_at(ids, i, 2);
        lemma_ids_bytes_at(ids, i, 3);
        lemma_le32_round_trip(ids[i]);
    }
    assert(ids_of(b) =~= ids);
}

/// Most packet ids one acknowledgement can carry: its length field is 32 bits.
pub const MAX_ACK_IDS: usize = 1073741820;

/// The CMD=605 acknowledgement on the wire. It has its own framing: length
/// (the bytes after it), command 605 as 32 bits, the all-zero ASCII target and
/// the packet ids.
pub open spec fn ack_message(ids: Seq<u32>) -> Seq<u8> {
    le32((12 + 4 * ids.len()) as u32) + le32(CMD_ACK as u32) + zero_target() + ids_bytes(ids)
}

/// Packet ids acknowledged to a camera.
#[derive(Debug, Clone)]
pub struct RetransmissionConfirm {
    pub received_packets: Vec<u32>,
}

impl RetransmissionConfirm {
    /// Reads packet ids from a whole number of 4-byte groups.
    pub fn from_bytes(data: &[u8]) -> (r: Result<Self, CodecError>)
        ensures
            match r {
                Ok(c) => data@.len() % 4 == 0 && c.received_packets@ == ids_of(data@),
                Err(e) => data@.len() % 4 != 0 && e == CodecError::BadLength,
            },
    {
        if data.len() % 4 != 0 {
            return Err(CodecError::BadLength);
        }
        let len = data.len();
        let n = len / 4;
        let mut received_packets: Vec<u32> = Vec::new();
        let mut i: usize = 0;
        while i < n
            invariant
                len == data@.len(),
                n == data@.len() / 4,
                0 <= i <= n,
                received_packets@ == ids_of(data@).take(i as int),
            decreases n - i,
        {
            assert(4 * i + 4 <= len) by (nonlinear_arith)
                requires
                    i < n,
                    n == len / 4,
            ;
            let id = read_le32(data, 4 * i);
            received_packets.push(id);
            assert(received_packets@ =~= ids_of(data@).take(i + 1));
            i += 1;
        }
        assert(ids_of(data@).take(n as int) =~= ids_of(data@));
        Ok(RetransmissionConfirm { received_packets })
    }

    /// Writes the packet ids, 4 little-endian bytes each.
    pub fn to_bytes(&self) -> (r: Vec<u8>)
        ensures
            r@ == ids_bytes(self.received_packets@),
    {
        let mut out: Vec<u8> = Vec::new();
        let mut i: usize = 0;
        while i < self.received_packets.len()
            invariant
                0 <= i <= self.received_packets@.len(),
                out@ == ids_bytes(self.received_packets@.take(i as int)),
            decreases self.received_packets@.len() - i,
        {
            push_le32(&mut out, self.received_packets[i]);
            assert(self.received_packets@.take(i + 1).drop_last() =~= self.received_packets@.take(
                i as int,
            ));
            i += 1;
        }
        assert(self.received_packets@.take(self.received_packets@.len() as int)
            =~= self.received_packets@);
        out
    }

    /// No packet ids.
    pub fn empty() -> (r: Self)
        ensures
            r.received_packets@.len() == 0,
    {
        RetransmissionConfirm { received_packets: Vec::new() }
    }

    /// The CMD=605 message that acknowledges these ids; none when there are
    /// more than one message can count.
    pub fn to_wire(&self) -> (r: Option<Vec<u8>>)
        ensures
            match r {
                Some(b) => self.received_packets@.len() <= MAX_ACK_IDS && b@ == ack_message(
                    self.received_packets@,
                ),
                None => self.received_packets@.len() > MAX_ACK_IDS,
            },
    {
        let n = self.received_packets.len();
        if n > MAX_ACK_IDS {
            return None;
        }
        let mut out: Vec<u8> = Vec::new();
        push_le32(&mut out, (12 + 4 * n) as u32);
        push_le32(&mut out, CMD_ACK as u32);
        let mut i: usize = 0;
        while i < 8
            invariant
                0 <= i <= 8,
                out@ == le32((12 + 4 * n) as u32) + le32(CMD_ACK as u32) + zero_target().take(
                    i as int,
                ),
            decreases 8 - i,
        {
            out.push(TARGET_ZERO);
            assert(zero_target().take(i + 1) =~= zero_target().take(i as int).push(TARGET_ZERO));
            i += 1;
        }
        assert(zero_target().take(8) =~= zero_target());
        let ids = self.to_bytes();
        out.extend_from_slice(ids.as_slice());
        assert(out@ =~= ack_message(self.received_packets@));
        Some(out)
    }
}

} // verus!
