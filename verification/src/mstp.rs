//! MS/TP (Master-Slave/Token-Passing) data-link layer of BACnet
//! (ANSI/ASHRAE 135-2012, clause 9): frames, their CRC, and the master
//! station's token state.
use vstd::prelude::*;
use vstd::slice::{slice_subrange, slice_to_vec};
use crate::bytes::{be16, le16, lemma_be16_value, lemma_le16_value, push_all, push_be16, push_le16, u16_from_be, u16_from_le};

verus! {

pub const FRAME_TYPE_TOKEN: u8 = 0x00;
pub const FRAME_TYPE_POLL_FOR_MASTER: u8 = 0x01;
pub const FRAME_TYPE_REPLY_TO_POLL: u8 = 0x02;
pub const FRAME_TYPE_TEST_REQUEST: u8 = 0x03;
pub const FRAME_TYPE_TEST_RESPONSE: u8 = 0x04;
pub const FRAME_TYPE_BACNET_DATA_EXPECTING_REPLY: u8 = 0x05;
pub const FRAME_TYPE_BACNET_DATA_NOT_EXPECTING_REPLY: u8 = 0x06;

/// An MS/TP frame. `length` counts the two header bytes that precede the
/// data in the standard's framing, so a frame built by [`MstpFrame::new`]
/// has `length == 2 + data.len()`.
#[derive(Debug, Clone, PartialEq, Eq)]
pub struct MstpFrame {
    pub frame_type: u8,
    pub destination: u8,
    pub source: u8,
    pub length: u16,
    pub data: Vec<u8>,
}

/// The mathematical content of an [`MstpFrame`].
pub struct FrameModel {
    pub frame_type: u8,
    pub destination: u8,
    pub source: u8,
    pub length: u16,
    pub data: Seq<u8>,
}

impl View for MstpFrame {
    type V = FrameModel;

    open spec fn view(&self) -> FrameModel {
        FrameModel {
            frame_type: self.frame_type,
            destination: self.destination,
            source: self.source,
            length: self.length,
            data: self.data@,
        }
    }
}

impl FrameModel {
    /// The length field agrees with the data: two header bytes plus the data.
    pub open spec fn wf(self) -> bool {
        self.length == 2 + self.data.len()
    }
}

/// Errors of the MS/TP layer.
#[derive(Debug, Clone, Copy, PartialEq, Eq, Structural)]
pub enum MstpError {
    InvalidFrameLength,
    InvalidDataLength,
    InvalidCrc,
    InvalidFrameType,
    Timeout,
    Collision,
}

/// The human-readable text of an error.
pub open spec fn error_text(e: MstpError) -> Seq<char> {
    match e {
        MstpError::InvalidFrameLength => "Invalid frame length"@,
        MstpError::InvalidDataLength => "Invalid data length"@,
        MstpError::InvalidCrc => "CRC check failed"@,
        MstpError::InvalidFrameType => "Invalid frame type"@,
        MstpError::Timeout => "Timeout"@,
        MstpError::Collision => "Collision detected"@,
    }
}

impl MstpError {
    /// The text that describes this error to a user.
    pub fn description(&self) -> (r: &'static str)
        ensures
            r@ == error_text(*self),
    {
        match self {
            MstpError::InvalidFrameLength => "Invalid frame length",
            MstpError::InvalidDataLength => "Invalid data length",
            MstpError::InvalidCrc => "CRC check failed",
            MstpError::InvalidFrameType => "Invalid frame type",
            MstpError::Timeout => "Timeout",
            MstpError::Collision => "Collision detected",
        }
    }
}

/// The value of the length field of a frame that carries `n` data bytes:
/// the two header bytes plus `n`, in 16 bits.
pub open spec fn length_for(n: nat) -> u16 {
    (2 + n % 65536) as u16
}

/// A data length whose length field can be computed without overflow.
pub open spec fn frame_data_fits(n: nat) -> bool {
    n % 65536 <= 65533
}

/// One step of the CRC-16 (reflected polynomial 0xA001) over one bit.
pub open spec fn crc_shift(crc: u16) -> u16 {
    if crc & 0x0001 != 0 {
        (crc >> 1) ^ 0xA001
    } else {
        crc >> 1
    }
}

/// `n` bit steps of the CRC.
pub open spec fn crc_shift_n(crc: u16, n: nat) -> u16
    decreases n,
{
    if n == 0 {
        crc
    } else {
        crc_shift(crc_shift_n(crc, (n - 1) as nat))
    }
}

/// The CRC state after one more byte.
pub open spec fn crc_byte(crc: u16, b: u8) -> u16 {
    crc_shift_n(crc ^ (b as u16), 8)
}

/// CRC-16/ARC of a byte sequence: reflected polynomial 0xA001, initial
/// value 0, no final XOR.
pub open spec fn crc_of(s: Seq<u8>) -> u16
    decreases s.len(),
{
    if s.len() == 0 {
        0
    } else {
        crc_byte(crc_of(s.drop_last()), s.last())
    }
}

/// The bytes of a frame without CRC: type, destination, source, the length
/// field in big-endian order, then the data.
pub open spec fn spec_encode(f: FrameModel) -> Seq<u8> {
    seq![f.frame_type, f.destination, f.source] + be16(f.length) + f.data
}

/// The bytes of a frame followed by its CRC in little-endian order.
pub open spec fn spec_encode_with_crc(f: FrameModel) -> Seq<u8> {
    spec_encode(f) + le16(crc_of(spec_encode(f)))
}

/// What decoding a frame without CRC yields: the header is five bytes, the
/// length field counts two header bytes plus the data that follows.
pub open spec fn spec_decode(b: Seq<u8>) -> Result<FrameModel, MstpError> {
    if b.len() < 5 {
        Err(MstpError::InvalidFrameLength)
    } else {
        let len = b[3] * 256 + b[4];
        if len < 2 || b.len() < 3 + len {
            Err(MstpError::InvalidDataLength)
        } else {
            Ok(
                FrameModel {
                    frame_type: b[0],
                    destination: b[1],
                    source: b[2],
                    length: len as u16,
                    data: b.subrange(5, 3 + len),
                },
            )
        }
    }
}

/// What decoding a frame followed by its little-endian CRC yields.
pub open spec fn spec_decode_with_crc(b: Seq<u8>) -> Result<FrameModel, MstpError> {
    if b.len() < 10 {
        Err(MstpError::InvalidFrameLength)
    } else {
        let body = b.subrange(0, b.len() - 2);
        let received = b[b.len() - 1] * 256 + b[b.len() - 2];
        if received != crc_of(body) {
            Err(MstpError::InvalidCrc)
        } else {
            spec_decode(body)
        }
    }
}

/// A decoding result, taken by the view of its frame.
pub open spec fn frame_result_view(r: Result<MstpFrame, MstpError>) -> Result<
    FrameModel,
    MstpError,
> {
    match r {
        Ok(f) => Ok(f@),
        Err(e) => Err(e),
    }
}

/// The display name of a frame type.
pub open spec fn frame_type_name_of(t: u8) -> Seq<char> {
    if t == FRAME_TYPE_TOKEN {
        "Token"@
    } else if t == FRAME_TYPE_POLL_FOR_MASTER {
        "PollForMaster"@
    } else if t == FRAME_TYPE_REPLY_TO_POLL {
        "ReplyToPoll"@
    } else if t == FRAME_TYPE_TEST_REQUEST {
        "TestRequest"@
    } else if t == FRAME_TYPE_TEST_RESPONSE {
        "TestResponse"@
    } else if t == FRAME_TYPE_BACNET_DATA_EXPECTING_REPLY {
        "BACnetDataExpectReply"@
    } else if t == FRAME_TYPE_BACNET_DATA_NOT_EXPECTING_REPLY {
        "BACnetDataNoReply"@
    } else {
        "Unknown"@
    }
}

impl MstpFrame {
    /// Creates a frame; the length field is two plus the data length.
    pub fn new(frame_type: u8, destination: u8, source: u8, data: Vec<u8>) -> (r: Self)
        requires
            frame_data_fits(data@.len()),
        ensures
            r.frame_type == frame_type,
            r.destination == destination,
            r.source == source,
            r.length == length_for(data@.len()),
            r.data@ == data@,
            data@.len() <= 65533 ==> r@.wf(),
    {
        let length = 2 + (data.len() % 65536) as u16;
        Self { frame_type, destination, source, length, data }
    }

    /// Creates a token frame.
    pub fn token(destination: u8, source: u8) -> (r: Self)
        ensures
            r@ == (FrameModel {
                frame_type: FRAME_TYPE_TOKEN,
                destination,
                source,
                length: 2,
                data: Seq::empty(),
            }),
    {
        Self::new(FRAME_TYPE_TOKEN, destination, source, Vec::new())
    }

    /// Creates a BACnet data frame that expects a reply.
    pub fn data_expect_reply(destination: u8, source: u8, data: Vec<u8>) -> (r: Self)
        requires
            frame_data_fits(data@.len()),
        ensures
            r@ == (FrameModel {
                frame_type: FRAME_TYPE_BACNET_DATA_EXPECTING_REPLY,
                destination,
                source,
                length: length_for(data@.len()),
                data: data@,
            }),
    {
        Self::new(FRAME_TYPE_BACNET_DATA_EXPECTING_REPLY, destination, source, data)
    }

    /// Creates a BACnet data frame that expects no reply.
    pub fn data_no_reply(destination: u8, source: u8, data: Vec<u8>) -> (r: Self)
        requires
            frame_data_fits(data@.len()),
        ensures
            r@ == (FrameModel {
                frame_type: FRAME_TYPE_BACNET_DATA_NOT_EXPECTING_REPLY,
                destination,
                source,
                length: length_for(data@.len()),
                data: data@,
            }),
    {
        Self::new(FRAME_TYPE_BACNET_DATA_NOT_EXPECTING_REPLY, destination, source, data)
    }

    /// Encodes the frame to bytes, without CRC.
    pub fn encode(&self) -> (r: Vec<u8>)
        ensures
            r@ == spec_encode(self@),
    {
        let mut bytes: Vec<u8> = Vec::new();
        bytes.push(self.frame_type);
        bytes.push(self.destination);
        bytes.push(self.source);
        push_be16(&mut bytes, self.length);
        push_all(&mut bytes, self.data.as_slice());
        bytes
    }

    /// Encodes the frame followed by its CRC.
    pub fn encode_with_crc(&self) -> (r: Vec<u8>)
        ensures
            r@ == spec_encode_with_crc(self@),
    {
        let mut bytes = self.encode();
        let crc = Self::calculate_crc(bytes.as_slice());
        push_le16(&mut bytes, crc);
        bytes
    }

    /// Decodes a frame from bytes without CRC.
    pub fn decode(bytes: &[u8]) -> (r: Result<Self, MstpError>)
        ensures
            frame_result_view(r) == spec_decode(bytes@),
    {
        if bytes.len() < 5 {
            return Err(MstpError::InvalidFrameLength);
        }
        let frame_type = bytes[0];
        let destination = bytes[1];
        let source = bytes[2];
        let length = u16_from_be(bytes[3], bytes[4]);
        if length < 2 || bytes.len() < 3 + length as usize {
            return Err(MstpError::InvalidDataLength);
        }
        let data = slice_to_vec(slice_subrange(bytes, 5, 3 + length as usize));
        Ok(Self { frame_type, destination, source, length, data })
    }

    /// Decodes a frame whose last two bytes are its CRC, in little-endian
    /// order, and checks that CRC.
    pub fn decode_with_crc(bytes: &[u8]) -> (r: Result<Self, MstpError>)
        ensures
            frame_result_view(r) == spec_decode_with_crc(bytes@),
    {
        if bytes.len() < 10 {
            return Err(MstpError::InvalidFrameLength);
        }
        let n = bytes.len();
        let frame_data = slice_subrange(bytes, 0, n - 2);
        let crc_received = u16_from_le(bytes[n - 2], bytes[n - 1]);
        let crc_calculated = Self::calculate_crc(frame_data);
        if crc_received != crc_calculated {
            return Err(MstpError::InvalidCrc);
        }
        Self::decode(frame_data)
    }

    /// Computes the CRC-16/ARC (polynomial 0xA001, initial value 0) of `data`.
    pub fn calculate_crc(data: &[u8]) -> (r: u16)
        ensures
            r == crc_of(data@),
    {
        let mut crc: u16 = 0;
        let n = data.len();
        for i in 0..n
            invariant
                n == data@.len(),
                crc == crc_of(data@.take(i as int)),
        {
            assert(data@.take(i + 1).drop_last() == data@.take(i as int));
            let ghost start = crc ^ (data[i as int] as u16);
            crc = crc ^ (data[i] as u16);
            for j in 0..8u32
                invariant
                    crc == crc_shift_n(start, j as nat),
            {
                if crc & 0x0001 != 0 {
                    crc = (crc >> 1) ^ 0xA001;
                } else {
                    crc = crc >> 1;
                }
            }
        }
        assert(data@.take(n as int) == data@);
        crc
    }

    /// The display name of this frame's type.
    pub fn frame_type_name(&self) -> (r: &'static str)
        ensures
            r@ == frame_type_name_of(self.frame_type),
    {
        match self.frame_type {
            FRAME_TYPE_TOKEN => "Token",
            FRAME_TYPE_POLL_FOR_MASTER => "PollForMaster",
            FRAME_TYPE_REPLY_TO_POLL => "ReplyToPoll",
            FRAME_TYPE_TEST_REQUEST => "TestRequest",
            FRAME_TYPE_TEST_RESPONSE => "TestResponse",
            FRAME_TYPE_BACNET_DATA_EXPECTING_REPLY => "BACnetDataExpectReply",
            FRAME_TYPE_BACNET_DATA_NOT_EXPECTING_REPLY => "BACnetDataNoReply",
            _ => "Unknown",
        }
    }

    /// Whether this is a token frame.
    pub fn is_token(&self) -> (r: bool)
        ensures
            r == (self.frame_type == FRAME_TYPE_TOKEN),
    {
        self.frame_type == FRAME_TYPE_TOKEN
    }

    /// Whether this is a BACnet data frame, with or without reply.
    pub fn is_bacnet_data(&self) -> (r: bool)
        ensures
            r == (self.frame_type == FRAME_TYPE_BACNET_DATA_EXPECTING_REPLY || self.frame_type
                == FRAME_TYPE_BACNET_DATA_NOT_EXPECTING_REPLY),
    {
        self.frame_type == FRAME_TYPE_BACNET_DATA_EXPECTING_REPLY || self.frame_type
            == FRAME_TYPE_BACNET_DATA_NOT_EXPECTING_REPLY
    }

    /// Whether this frame expects a reply.
    pub fn expects_reply(&self) -> (r: bool)
        ensures
            r == (self.frame_type == FRAME_TYPE_BACNET_DATA_EXPECTING_REPLY),
    {
        self.frame_type == FRAME_TYPE_BACNET_DATA_EXPECTING_REPLY
    }
}

/// MS/TP timing parameters, in milliseconds.
#[derive(Debug, Clone, Copy)]
pub struct MstpTiming {
    pub treply_timeout: u64,
    pub ttoken_hold_time: u64,
    pub tframe_abort: u64,
    pub tturnaround: u64,
    pub tusage_timeout: u64,
}

/// The timing a master starts with.
pub open spec fn default_timing() -> MstpTiming {
    MstpTiming {
        treply_timeout: 200,
        ttoken_hold_time: 10,
        tframe_abort: 60,
        tturnaround: 40,
        tusage_timeout: 255,
    }
}

impl Default for MstpTiming {
    fn default() -> (r: Self)
        ensures
            r == default_timing(),
    {
        Self {
            treply_timeout: 200,
            ttoken_hold_time: 10,
            tframe_abort: 60,
            tturnaround: 40,
            tusage_timeout: 255,
        }
    }
}

/// The state of a master station.
#[derive(Debug, Clone, Copy, PartialEq, Eq, Structural)]
pub enum MstpState {
    Idle,
    UseToken,
    WaitForReply,
    Done,
}

/// A master station on the MS/TP bus.
#[derive(Debug)]
pub struct MstpMaster {
    pub this_station: u8,
    pub max_master: u8,
    pub max_info_frames: u8,
    pub state: MstpState,
    pub timing: MstpTiming,
    pub token_count: u8,
}

/// The station the token goes to after `this`: the next address, wrapping
/// to 1 past `max_master`.
pub open spec fn next_station(this: u8, max_master: u8) -> u8 {
    if this >= max_master {
        1
    } else {
        (this + 1) as u8
    }
}

/// The token frame that `this` passes on.
pub open spec fn token_frame(this: u8, max_master: u8) -> FrameModel {
    FrameModel {
        frame_type: FRAME_TYPE_TOKEN,
        destination: next_station(this, max_master),
        source: this,
        length: 2,
        data: Seq::empty(),
    }
}

impl MstpMaster {
    /// The station holds the token and has not used up its frames.
    pub open spec fn may_send(self) -> bool {
        self.state == MstpState::UseToken && self.token_count < self.max_info_frames
    }

    /// The station after a frame of the given type and destination arrived.
    pub open spec fn after_receive(self, frame_type: u8, destination: u8) -> Self {
        if frame_type == FRAME_TYPE_TOKEN && destination == self.this_station {
            MstpMaster { state: MstpState::UseToken, token_count: 0, ..self }
        } else if frame_type == FRAME_TYPE_BACNET_DATA_EXPECTING_REPLY && destination
            == self.this_station {
            MstpMaster { state: MstpState::WaitForReply, ..self }
        } else {
            self
        }
    }

    /// The station after it sent one frame.
    pub open spec fn after_frame_sent(self) -> Self {
        let count = (self.token_count + 1) as u8;
        MstpMaster {
            token_count: count,
            state: if count >= self.max_info_frames {
                MstpState::Idle
            } else {
                self.state
            },
            ..self
        }
    }

    /// The station after it sent `k` frames.
    pub open spec fn after_frames_sent(self, k: nat) -> Self
        decreases k,
    {
        if k == 0 {
            self
        } else {
            self.after_frames_sent((k - 1) as nat).after_frame_sent()
        }
    }

    /// A master in the idle state, with default timing.
    pub fn new(this_station: u8, max_master: u8, max_info_frames: u8) -> (r: Self)
        ensures
            r == (MstpMaster {
                this_station,
                max_master,
                max_info_frames,
                state: MstpState::Idle,
                timing: default_timing(),
                token_count: 0,
            }),
    {
        Self {
            this_station,
            max_master,
            max_info_frames,
            state: MstpState::Idle,
            timing: MstpTiming::default(),
            token_count: 0,
        }
    }

    /// Processes a received frame: a token for this station lets it send;
    /// a data frame for it that expects a reply makes it wait for the reply.
    pub fn receive_frame(&mut self, frame: &MstpFrame) -> (r: Result<(), MstpError>)
        ensures
            r is Ok,
            *final(self) == old(self).after_receive(frame.frame_type, frame.destination),
    {
        match frame.frame_type {
            FRAME_TYPE_TOKEN => {
                if frame.destination == self.this_station {
                    self.state = MstpState::UseToken;
                    self.token_count = 0;
                }
                Ok(())
            },
            FRAME_TYPE_BACNET_DATA_EXPECTING_REPLY => {
                if frame.destination == self.this_station {
                    self.state = MstpState::WaitForReply;
                }
                Ok(())
            },
            _ => Ok(()),
        }
    }

    /// The token frame for the next station.
    pub fn send_token(&self) -> (r: MstpFrame)
        ensures
            r@ == token_frame(self.this_station, self.max_master),
    {
        let next_station = if self.this_station >= self.max_master {
            1
        } else {
            self.this_station + 1
        };
        MstpFrame::token(next_station, self.this_station)
    }

    /// Whether the station may send a frame now.
    pub fn can_send(&self) -> (r: bool)
        ensures
            r == self.may_send(),
    {
        self.state == MstpState::UseToken && self.token_count < self.max_info_frames
    }

    /// Records that a frame was sent; when the frames allowed per token are
    /// used up, the station returns to idle.
    pub fn frame_sent(&mut self)
        requires
            old(self).token_count < 255,
        ensures
            *final(self) == old(self).after_frame_sent(),
    {
        self.token_count += 1;
        if self.token_count >= self.max_info_frames {
            self.state = MstpState::Idle;
        }
    }

    /// Gives up the token: the station returns to idle and the token frame
    /// for the next station is returned.
    pub fn pass_token(&mut self) -> (r: MstpFrame)
        ensures
            *final(self) == (MstpMaster { state: MstpState::Idle, ..*old(self) }),
            !final(self).may_send(),
            r@ == token_frame(old(self).this_station, old(self).max_master),
    {
        self.state = MstpState::Idle;
        self.send_token()
    }
}

/// A station that has just received the token may send exactly
/// `max_info_frames` frames: after `k` of them it may send another one
/// if and only if `k < max_info_frames`.
pub proof fn lemma_token_budget(m: MstpMaster, k: nat)
    requires
        m.state == MstpState::UseToken,
        m.token_count == 0,
        k <= m.max_info_frames,
    ensures
        m.after_frames_sent(k).token_count == k,
        m.after_frames_sent(k).may_send() == (k < m.max_info_frames),
    decreases k,
{
    if k > 0 {
        lemma_token_budget_state(m, (k - 1) as nat);
        let before = m.after_frames_sent((k - 1) as nat);
        assert(m.after_frames_sent(k) == before.after_frame_sent());
    }
}

/// A station that receives a token addressed to itself may then send
/// exactly `max_info_frames` frames before its turn ends, whatever state
/// it was in before.
pub proof fn lemma_token_turn(m: MstpMaster, k: nat)
    requires
        k <= m.max_info_frames,
    ensures
        m.after_receive(FRAME_TYPE_TOKEN, m.this_station).after_frames_sent(k).may_send() == (k
            < m.max_info_frames),
{
    lemma_token_budget(m.after_receive(FRAME_TYPE_TOKEN, m.this_station), k);
}

/// A station reacts only to frames addressed to it: a frame for another
/// station leaves it exactly as it was; a token for it lets it send
/// afresh; a data frame for it that expects a reply makes it wait; every
/// other frame type leaves it as it was. Its address, ring size, frame
/// budget and timing never change on receipt.
pub proof fn lemma_receive_only_own_frames(m: MstpMaster, frame_type: u8, destination: u8)
    ensures
        destination != m.this_station ==> m.after_receive(frame_type, destination) == m,
        frame_type != FRAME_TYPE_TOKEN && frame_type != FRAME_TYPE_BACNET_DATA_EXPECTING_REPLY
            ==> m.after_receive(frame_type, destination) == m,
        destination == m.this_station && frame_type == FRAME_TYPE_TOKEN ==> {
            &&& m.after_receive(frame_type, destination).state == MstpState::UseToken
            &&& m.after_receive(frame_type, destination).token_count == 0
        },
        destination == m.this_station && frame_type == FRAME_TYPE_BACNET_DATA_EXPECTING_REPLY
            ==> {
            &&& m.after_receive(frame_type, destination).state == MstpState::WaitForReply
            &&& m.after_receive(frame_type, destination).token_count == m.token_count
        },
        m.after_receive(frame_type, destination).this_station == m.this_station,
        m.after_receive(frame_type, destination).max_master == m.max_master,
        m.after_receive(frame_type, destination).max_info_frames == m.max_info_frames,
        m.after_receive(frame_type, destination).timing == m.timing,
{
}

/// While frames remain in the budget, the station keeps the token.
proof fn lemma_token_budget_state(m: MstpMaster, k: nat)
    requires
        m.state == MstpState::UseToken,
        m.token_count == 0,
        k < m.max_info_frames,
    ensures
        m.after_frames_sent(k).state == MstpState::UseToken,
        m.after_frames_sent(k).token_count == k,
        m.after_frames_sent(k).max_info_frames == m.max_info_frames,
    decreases k,
{
    if k > 0 {
        lemma_token_budget_state(m, (k - 1) as nat);
        let before = m.after_frames_sent((k - 1) as nat);
        assert(m.after_frames_sent(k) == before.after_frame_sent());
    }
}

/// The token always goes to a station of the ring `1..=max_master`.
pub proof fn lemma_next_station_in_ring(this: u8, max_master: u8)
    requires
        max_master >= 1,
    ensures
        1 <= next_station(this, max_master) <= max_master,
{
}

/// Eight bit steps of the CRC, written out.
pub open spec fn crc_shift8(c: u16) -> u16 {
    crc_shift(crc_shift(crc_shift(crc_shift(crc_shift(crc_shift(crc_shift(crc_shift(c))))))))
}

proof fn lemma_crc_byte_unrolled(c: u16, b: u8)
    ensures
        crc_byte(c, b) == crc_shift8(c ^ (b as u16)),
{
    reveal_with_fuel(crc_shift_n, 9);
}

/// The CRC is CRC-16/ARC, which starts from 0: any run of zero bytes,
/// the empty one included, has CRC 0.
pub proof fn lemma_crc_of_zeros(n: nat)
    ensures
        crc_of(Seq::new(n, |i: int| 0u8)) == 0,
    decreases n,
{
    if n > 0 {
        let z = Seq::new(n, |i: int| 0u8);
        assert(z.drop_last() =~= Seq::new((n - 1) as nat, |i: int| 0u8));
        lemma_crc_of_zeros((n - 1) as nat);
        lemma_crc_byte_unrolled(0, 0);
        assert(0u16 ^ (0u8 as u16) == 0u16) by (bit_vector);
        assert(crc_shift(0) == 0) by (bit_vector);
    }
}

/// Decoding the bytes of a well-formed frame, encoded without CRC, gives
/// the frame back.
pub proof fn lemma_decode_encode(f: FrameModel)
    requires
        f.wf(),
    ensures
        spec_decode(spec_encode(f)) == Ok::<FrameModel, MstpError>(f),
{
    let b = spec_encode(f);
    lemma_be16_value(f.length);
    assert(b[3] == be16(f.length)[0]);
    assert(b[4] == be16(f.length)[1]);
    assert(b.subrange(5, 3 + f.length) =~= f.data);
}

/// Decoding the bytes of a well-formed frame, encoded with its CRC, gives
/// the frame back, provided the encoding reaches the ten bytes that
/// decoding with CRC asks for (three data bytes or more).
pub proof fn lemma_decode_with_crc_encode(f: FrameModel)
    requires
        f.wf(),
        f.data.len() >= 3,
    ensures
        spec_decode_with_crc(spec_encode_with_crc(f)) == Ok::<FrameModel, MstpError>(f),
{
    let e = spec_encode(f);
    let b = spec_encode_with_crc(f);
    let crc = crc_of(e);
    lemma_le16_value(crc);
    assert(b.subrange(0, b.len() - 2) =~= e);
    assert(b[b.len() - 1] == le16(crc)[1]);
    assert(b[b.len() - 2] == le16(crc)[0]);
    lemma_decode_encode(f);
}

} // verus!
