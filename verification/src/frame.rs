//! Frames: the units in which clients and the app exchange messages.

use crate::document::Document;
use crate::endian::{read_be, to_be};
#[allow(unused_imports)]
use crate::endian::{
    be_bytes, be_value, lemma_be_bytes_len, lemma_be_ranges, lemma_be_round_trip,
    lemma_be_value_bound,
};
use crate::outside::{
    advance_buffer, buffer_slice, bytes_from_vec, bytes_slice, freeze_buffer, json_document,
    parse_json, put_bytes, split_buffer,
};
#[allow(unused_imports)]
use crate::outside::{buffered, frozen, json_parsed};
use crate::text::{concat3, decimal_string};
#[allow(unused_imports)]
use crate::text::decimal;
use vstd::prelude::*;

verus! {

pub const PROTOCOL_VERSION: u16 = 1;

/// 8 MiB.
pub const MAX_CONTROL_PAYLOAD: usize = 8_388_608;

/// 1 MiB.
pub const MAX_LOG_PAYLOAD: usize = 1_048_576;

pub const HEADER_SIZE: usize = 28;

/// The first four bytes of every frame.
pub open spec fn magic() -> Seq<u8> {
    seq![0x54u8, 0x47u8, 0x4cu8, 0x31u8]
}

/// What a frame carries.
#[derive(Clone, Copy, Debug, PartialEq, Eq, Structural)]
pub enum FrameKind {
    Handshake,
    HandshakeAck,
    Request,
    Response,
    Event,
    Log,
    Gap,
    Ping,
    Pong,
}

impl FrameKind {
    /// The byte that stands for the kind.
    pub open spec fn byte(self) -> u8 {
        match self {
            FrameKind::Handshake => 1,
            FrameKind::HandshakeAck => 2,
            FrameKind::Request => 3,
            FrameKind::Response => 4,
            FrameKind::Event => 5,
            FrameKind::Log => 6,
            FrameKind::Gap => 7,
            FrameKind::Ping => 8,
            FrameKind::Pong => 9,
        }
    }

    /// The byte that stands for the kind.
    pub fn code(self) -> (r: u8)
        ensures
            r == self.byte(),
    {
        match self {
            FrameKind::Handshake => 1,
            FrameKind::HandshakeAck => 2,
            FrameKind::Request => 3,
            FrameKind::Response => 4,
            FrameKind::Event => 5,
            FrameKind::Log => 6,
            FrameKind::Gap => 7,
            FrameKind::Ping => 8,
            FrameKind::Pong => 9,
        }
    }

    /// The kind that a byte stands for.
    pub open spec fn of_byte(value: u8) -> Option<FrameKind> {
        if value == 1 {
            Some(FrameKind::Handshake)
        } else if value == 2 {
            Some(FrameKind::HandshakeAck)
        } else if value == 3 {
            Some(FrameKind::Request)
        } else if value == 4 {
            Some(FrameKind::Response)
        } else if value == 5 {
            Some(FrameKind::Event)
        } else if value == 6 {
            Some(FrameKind::Log)
        } else if value == 7 {
            Some(FrameKind::Gap)
        } else if value == 8 {
            Some(FrameKind::Ping)
        } else if value == 9 {
            Some(FrameKind::Pong)
        } else {
            None
        }
    }

    /// The kind that a byte stands for.
    pub fn from_code(value: u8) -> (r: Result<FrameKind, ProtocolError>)
        ensures
            r is Ok <==> FrameKind::of_byte(value) is Some,
            r matches Ok(kind) ==> FrameKind::of_byte(value) == Some(kind),
            r matches Err(error) ==> error == ProtocolError::UnknownFrameKind(value),
    {
        match value {
            1 => Ok(FrameKind::Handshake),
            2 => Ok(FrameKind::HandshakeAck),
            3 => Ok(FrameKind::Request),
            4 => Ok(FrameKind::Response),
            5 => Ok(FrameKind::Event),
            6 => Ok(FrameKind::Log),
            7 => Ok(FrameKind::Gap),
            8 => Ok(FrameKind::Ping),
            9 => Ok(FrameKind::Pong),
            _ => Err(ProtocolError::UnknownFrameKind(value)),
        }
    }

    /// The longest payload that a frame of the kind may have.
    pub open spec fn limit(self) -> nat {
        if self == FrameKind::Log {
            MAX_LOG_PAYLOAD as nat
        } else {
            MAX_CONTROL_PAYLOAD as nat
        }
    }

    /// The longest payload that a frame of the kind may have.
    pub fn max_payload(self) -> (r: usize)
        ensures
            r == self.limit(),
    {
        match self {
            FrameKind::Log => MAX_LOG_PAYLOAD,
            _ => MAX_CONTROL_PAYLOAD,
        }
    }

    /// Frames of the kind need no payload.
    pub open spec fn may_be_empty(self) -> bool {
        self == FrameKind::Ping || self == FrameKind::Pong
    }

    /// Whether frames of the kind need no payload.
    pub fn allows_empty(self) -> (r: bool)
        ensures
            r == self.may_be_empty(),
    {
        match self {
            FrameKind::Ping | FrameKind::Pong => true,
            _ => false,
        }
    }
}

/// Why a frame was refused.
#[allow(inconsistent_fields)]
#[derive(Clone, Debug, PartialEq, Eq)]
pub enum ProtocolError {
    InvalidMagic,
    UnsupportedVersion(u16),
    UnknownFrameKind(u8),
    OversizedPayload { declared: usize, maximum: usize },
    EmptyPayload,
    Json(String),
    Io(String),
    PeerUid { expected: u32, actual: u32 },
}

impl ProtocolError {
    /// The message shown for the error.
    pub open spec fn text(self) -> Seq<char> {
        match self {
            ProtocolError::InvalidMagic => "invalid frame magic"@,
            ProtocolError::UnsupportedVersion(version) => "unsupported protocol version "@
                + decimal(version as nat),
            ProtocolError::UnknownFrameKind(kind) => "unknown mandatory frame kind "@ + decimal(
                kind as nat,
            ),
            ProtocolError::OversizedPayload { declared, maximum } => "payload length "@ + decimal(
                declared as nat,
            ) + " exceeds maximum "@ + decimal(maximum as nat),
            ProtocolError::EmptyPayload => "zero payload is not valid for this frame kind"@,
            ProtocolError::Json(reason) => "control JSON is malformed: "@ + reason@,
            ProtocolError::Io(reason) => "I/O error: "@ + reason@,
            ProtocolError::PeerUid { expected, actual } => "peer user ID "@ + decimal(actual as nat)
                + " does not match current user "@ + decimal(expected as nat),
        }
    }

    /// The message shown for the error.
    pub fn message(&self) -> (r: String)
        ensures
            r@ == self.text(),
    {
        match self {
            ProtocolError::InvalidMagic => "invalid frame magic".to_owned(),
            ProtocolError::UnsupportedVersion(version) => "unsupported protocol version ".to_owned().concat(
                decimal_string(*version as u64).as_str(),
            ),
            ProtocolError::UnknownFrameKind(kind) => "unknown mandatory frame kind ".to_owned().concat(
                decimal_string(*kind as u64).as_str(),
            ),
            ProtocolError::OversizedPayload { declared, maximum } => concat3(
                "payload length ",
                decimal_string(*declared as u64).as_str(),
                " exceeds maximum ",
            ).concat(decimal_string(*maximum as u64).as_str()),
            ProtocolError::EmptyPayload => {
                "zero payload is not valid for this frame kind".to_owned()
            },
            ProtocolError::Json(reason) => {
                "control JSON is malformed: ".to_owned().concat(reason.as_str())
            },
            ProtocolError::Io(reason) => "I/O error: ".to_owned().concat(reason.as_str()),
            ProtocolError::PeerUid { expected, actual } => concat3(
                "peer user ID ",
                decimal_string(*actual as u64).as_str(),
                " does not match current user ",
            ).concat(decimal_string(*expected as u64).as_str()),
        }
    }
}

/// Checks that the other end of a connection belongs to the same user.
pub fn check_peer_uid(expected: u32, actual: u32) -> (r: Result<(), ProtocolError>)
    ensures
        r is Ok <==> actual == expected,
        r matches Err(error) ==> error == (ProtocolError::PeerUid { expected, actual }),
{
    if actual != expected {
        return Err(ProtocolError::PeerUid { expected, actual });
    }
    Ok(())
}

/// A message on the wire; the correlation identifier is the value of a UUID.
#[derive(Clone, Debug, PartialEq, Eq)]
pub struct Frame {
    pub version: u16,
    pub kind: FrameKind,
    pub flags: u8,
    pub correlation_id: u128,
    pub payload: bytes::Bytes,
}

/// What a frame says.
#[verifier::ext_equal]
pub struct FrameView {
    pub version: u16,
    pub kind: FrameKind,
    pub flags: u8,
    pub correlation_id: u128,
    pub payload: Seq<u8>,
}

impl View for Frame {
    type V = FrameView;

    open spec fn view(&self) -> FrameView {
        FrameView {
            version: self.version,
            kind: self.kind,
            flags: self.flags,
            correlation_id: self.correlation_id,
            payload: frozen(self.payload),
        }
    }
}

impl Frame {
    /// Makes a control frame of a JSON payload.
    pub fn control(kind: FrameKind, correlation_id: u128, payload: Vec<u8>) -> (r: Result<
        Frame,
        ProtocolError,
    >)
        ensures
            r is Ok <==> payload@.len() <= MAX_CONTROL_PAYLOAD,
            r matches Ok(frame) ==> frame@ == (FrameView {
                version: PROTOCOL_VERSION,
                kind,
                flags: 0,
                correlation_id,
                payload: payload@,
            }),
            r matches Err(error) ==> error == (ProtocolError::OversizedPayload {
                declared: payload@.len() as usize,
                maximum: MAX_CONTROL_PAYLOAD,
            }),
    {
        if payload.len() > MAX_CONTROL_PAYLOAD {
            return Err(
                ProtocolError::OversizedPayload {
                    declared: payload.len(),
                    maximum: MAX_CONTROL_PAYLOAD,
                },
            );
        }
        Ok(
            Frame {
                version: PROTOCOL_VERSION,
                kind,
                flags: 0,
                correlation_id,
                payload: bytes_from_vec(payload),
            },
        )
    }

    /// Reads the payload as JSON.
    pub fn decode_json(&self) -> (r: Result<Document, ProtocolError>)
        ensures
            r is Ok <==> json_parsed(self@.payload) is Some,
            r matches Ok(document) ==> json_parsed(self@.payload) == Some(document@),
            r matches Err(error) ==> error is Json,
    {
        match parse_json(bytes_slice(&self.payload)) {
            Ok(value) => Ok(json_document(value)),
            Err(message) => Err(ProtocolError::Json(message)),
        }
    }
}

/// Why a frame may not be sent.
pub open spec fn payload_fault(kind: FrameKind, len: nat) -> Option<ProtocolError> {
    if len > kind.limit() {
        Some(
            ProtocolError::OversizedPayload {
                declared: len as usize,
                maximum: kind.limit() as usize,
            },
        )
    } else if len == 0 && !kind.may_be_empty() {
        Some(ProtocolError::EmptyPayload)
    } else {
        None
    }
}

/// A frame on the wire: magic, version, kind, flags, correlation identifier,
/// payload length, payload.
pub open spec fn frame_bytes(frame: FrameView) -> Seq<u8> {
    magic() + be_bytes(frame.version as nat, 2) + seq![frame.kind.byte(), frame.flags] + be_bytes(
        frame.correlation_id as nat,
        16,
    ) + be_bytes(frame.payload.len(), 4) + frame.payload
}

/// What the bytes received so far amount to.
pub enum Outcome {
    /// More bytes are needed.
    Incomplete,
    /// They cannot become a frame.
    Refused(ProtocolError),
    /// They begin with this frame, which takes up that many bytes.
    Complete(FrameView, nat),
}

/// What the bytes received so far amount to. The header alone decides whether
/// they are refused.
pub open spec fn outcome(source: Seq<u8>) -> Outcome {
    if source.len() < HEADER_SIZE {
        Outcome::Incomplete
    } else {
        let version = be_value(source.subrange(4, 6));
        let declared = be_value(source.subrange(24, 28));
        if source.subrange(0, 4) != magic() {
            Outcome::Refused(ProtocolError::InvalidMagic)
        } else if version != PROTOCOL_VERSION {
            Outcome::Refused(ProtocolError::UnsupportedVersion(version as u16))
        } else {
            match FrameKind::of_byte(source[6]) {
                None => Outcome::Refused(ProtocolError::UnknownFrameKind(source[6])),
                Some(kind) => match payload_fault(kind, declared) {
                    Some(fault) => Outcome::Refused(fault),
                    None => if source.len() < HEADER_SIZE + declared {
                        Outcome::Incomplete
                    } else {
                        Outcome::Complete(
                            FrameView {
                                version: PROTOCOL_VERSION,
                                kind,
                                flags: source[7],
                                correlation_id: be_value(source.subrange(8, 24)) as u128,
                                payload: source.subrange(
                                    HEADER_SIZE as int,
                                    HEADER_SIZE + declared,
                                ),
                            },
                            HEADER_SIZE as nat + declared,
                        )
                    },
                },
            }
        }
    }
}

/// Turns frames into bytes and back.
#[derive(Clone, Copy, Debug)]
pub struct FrameCodec;

impl FrameCodec {
    /// Takes the next frame from the bytes received so far. Where there is none
    /// yet, or where the bytes are refused, they stay as they are.
    pub fn decode(&self, source: &mut bytes::BytesMut) -> (r: Result<Option<Frame>, ProtocolError>)
        ensures
            match outcome(buffered(*old(source))) {
                Outcome::Incomplete => r matches Ok(None) && buffered(*final(source)) == buffered(
                    *old(source),
                ),
                Outcome::Refused(fault) => (r matches Err(error) && error == fault) && buffered(
                    *final(source),
                ) == buffered(*old(source)),
                Outcome::Complete(view, taken) => (r matches Ok(Some(frame)) && frame@ == view)
                    && buffered(*final(source)) == buffered(*old(source)).skip(taken as int),
            },
    {
        let ghost all = buffered(*source);
        let bytes = buffer_slice(source);
        if bytes.len() < HEADER_SIZE {
            return Ok(None);
        }
        proof {
            lemma_be_ranges();
            lemma_be_value_bound(all.subrange(4, 6));
            lemma_be_value_bound(all.subrange(24, 28));
            lemma_be_value_bound(all.subrange(8, 24));
        }
        if !(bytes[0] == 0x54 && bytes[1] == 0x47 && bytes[2] == 0x4c && bytes[3] == 0x31) {
            assert(all.subrange(0, 4) != magic()) by {
                if all.subrange(0, 4) == magic() {
                    assert(all.subrange(0, 4)[0] == all[0]);
                    assert(all.subrange(0, 4)[1] == all[1]);
                    assert(all.subrange(0, 4)[2] == all[2]);
                    assert(all.subrange(0, 4)[3] == all[3]);
                }
            }
            return Err(ProtocolError::InvalidMagic);
        }
        assert(all.subrange(0, 4) =~= magic());
        let version: u16 = read_be(bytes, 4, 2) as u16;
        if version != PROTOCOL_VERSION {
            return Err(ProtocolError::UnsupportedVersion(version));
        }
        let kind = match FrameKind::from_code(bytes[6]) {
            Ok(kind) => kind,
            Err(error) => {
                return Err(error);
            },
        };
        let flags = bytes[7];
        let correlation_id: u128 = read_be(bytes, 8, 16);
        let declared_wide: u128 = read_be(bytes, 24, 4);
        let declared: usize = declared_wide as usize;
        assert(declared == be_value(all.subrange(24, 28)));
        let maximum = kind.max_payload();
        if declared > maximum {
            return Err(ProtocolError::OversizedPayload { declared, maximum });
        }
        if declared == 0 && !kind.allows_empty() {
            return Err(ProtocolError::EmptyPayload);
        }
        if bytes.len() < HEADER_SIZE + declared {
            return Ok(None);
        }
        advance_buffer(source, HEADER_SIZE);
        let payload = freeze_buffer(split_buffer(source, declared));
        proof {
            assert(frozen(payload) =~= all.subrange(HEADER_SIZE as int, HEADER_SIZE + declared));
            assert(buffered(*source) =~= all.skip(HEADER_SIZE + declared));
        }
        Ok(Some(Frame { version, kind, flags, correlation_id, payload }))
    }

    /// Appends a frame to the bytes to be sent.
    pub fn encode(&self, frame: &Frame, destination: &mut bytes::BytesMut) -> (r: Result<
        (),
        ProtocolError,
    >)
        requires
            buffered(*old(destination)).len() + HEADER_SIZE + frame@.payload.len() <= isize::MAX,
        ensures
            match payload_fault(frame.kind, frame@.payload.len()) {
                Some(fault) => (r matches Err(error) && error == fault) && buffered(
                    *final(destination),
                ) == buffered(*old(destination)),
                None => r is Ok && buffered(*final(destination)) == buffered(*old(destination))
                    + frame_bytes(frame@),
            },
    {
        let payload = bytes_slice(&frame.payload);
        let maximum = frame.kind.max_payload();
        if payload.len() > maximum {
            return Err(ProtocolError::OversizedPayload { declared: payload.len(), maximum });
        }
        if payload.len() == 0 && !frame.kind.allows_empty() {
            return Err(ProtocolError::EmptyPayload);
        }
        let mut bytes: Vec<u8> = Vec::new();
        bytes.push(0x54);
        bytes.push(0x47);
        bytes.push(0x4c);
        bytes.push(0x31);
        assert(bytes@ =~= magic());
        let mut version = to_be(frame.version as u128, 2);
        bytes.append(&mut version);
        bytes.push(frame.kind.code());
        bytes.push(frame.flags);
        let mut correlation = to_be(frame.correlation_id, 16);
        bytes.append(&mut correlation);
        let mut length = to_be(payload.len() as u128, 4);
        bytes.append(&mut length);
        proof {
            lemma_be_bytes_len(frame.version as nat, 2);
            lemma_be_bytes_len(frame.correlation_id as nat, 16);
            lemma_be_bytes_len(payload@.len(), 4);
            assert(bytes@.len() == HEADER_SIZE);
        }
        put_bytes(destination, bytes.as_slice());
        put_bytes(destination, payload);
        assert(buffered(*destination) =~= buffered(*old(destination)) + frame_bytes(frame@));
        Ok(())
    }
}

/// The header of a frame, field by field.
proof fn lemma_frame_fields(frame: FrameView, rest: Seq<u8>)
    requires
        payload_fault(frame.kind, frame.payload.len()) is None,
    ensures
        ({
            let all = frame_bytes(frame) + rest;
            &&& frame_bytes(frame).len() == HEADER_SIZE + frame.payload.len()
            &&& all.subrange(0, 4) == magic()
            &&& be_value(all.subrange(4, 6)) == frame.version
            &&& all[6] == frame.kind.byte()
            &&& all[7] == frame.flags
            &&& be_value(all.subrange(8, 24)) == frame.correlation_id
            &&& be_value(all.subrange(24, 28)) == frame.payload.len()
            &&& all.subrange(HEADER_SIZE as int, HEADER_SIZE + frame.payload.len()) == frame.payload
        }),
{
    let all = frame_bytes(frame) + rest;
    lemma_be_ranges();
    lemma_be_bytes_len(frame.version as nat, 2);
    lemma_be_bytes_len(frame.correlation_id as nat, 16);
    lemma_be_bytes_len(frame.payload.len(), 4);
    lemma_be_round_trip(frame.version as nat, 2);
    lemma_be_round_trip(frame.correlation_id as nat, 16);
    lemma_be_round_trip(frame.payload.len(), 4);
    assert(all.subrange(0, 4) =~= magic());
    assert(all.subrange(4, 6) =~= be_bytes(frame.version as nat, 2));
    assert(all.subrange(8, 24) =~= be_bytes(frame.correlation_id as nat, 16));
    assert(all.subrange(24, 28) =~= be_bytes(frame.payload.len(), 4));
    assert(all.subrange(HEADER_SIZE as int, HEADER_SIZE + frame.payload.len()) =~= frame.payload);
}

/// What was sent is received: the bytes of a frame, with anything behind them,
/// decode to that frame and leave the rest.
pub proof fn law_frames_survive_the_wire(frame: FrameView, rest: Seq<u8>)
    requires
        frame.version == PROTOCOL_VERSION,
        payload_fault(frame.kind, frame.payload.len()) is None,
    ensures
        outcome(frame_bytes(frame) + rest) == Outcome::Complete(frame, frame_bytes(frame).len()),
        (frame_bytes(frame) + rest).skip(frame_bytes(frame).len() as int) == rest,
{
    lemma_frame_fields(frame, rest);
    let all = frame_bytes(frame) + rest;
    let received = FrameView {
        version: PROTOCOL_VERSION,
        kind: frame.kind,
        flags: all[7],
        correlation_id: be_value(all.subrange(8, 24)) as u128,
        payload: all.subrange(HEADER_SIZE as int, HEADER_SIZE + frame.payload.len()),
    };
    assert(received =~= frame);
    assert(all.skip(frame_bytes(frame).len() as int) =~= rest);
}

/// A frame may arrive in pieces: as long as a part of it is missing, the decoder
/// waits, and neither refuses it nor takes anything.
pub proof fn law_fragments_wait_for_the_rest(frame: FrameView, arrived: int)
    requires
        frame.version == PROTOCOL_VERSION,
        payload_fault(frame.kind, frame.payload.len()) is None,
        0 <= arrived < frame_bytes(frame).len(),
    ensures
        outcome(frame_bytes(frame).take(arrived)) is Incomplete,
{
    let all = frame_bytes(frame);
    let part = all.take(arrived);
    lemma_frame_fields(frame, Seq::empty());
    assert(all + Seq::<u8>::empty() =~= all);
    if arrived >= HEADER_SIZE {
        assert(part.subrange(0, 4) =~= all.subrange(0, 4));
        assert(part.subrange(4, 6) =~= all.subrange(4, 6));
        assert(part.subrange(24, 28) =~= all.subrange(24, 28));
        assert(part[6] == all[6]);
    }
}

/// A payload that is declared too long is refused by the header alone, whatever
/// has arrived of it.
pub proof fn law_oversized_declarations_are_refused_by_the_header(
    header: Seq<u8>,
    kind: FrameKind,
    rest: Seq<u8>,
)
    requires
        header.len() == HEADER_SIZE,
        header.subrange(0, 4) == magic(),
        be_value(header.subrange(4, 6)) == PROTOCOL_VERSION,
        FrameKind::of_byte(header[6]) == Some(kind),
        be_value(header.subrange(24, 28)) > kind.limit(),
    ensures
        outcome(header + rest) matches Outcome::Refused(error) && error is OversizedPayload,
{
    let all = header + rest;
    assert(all.subrange(0, 4) =~= header.subrange(0, 4));
    assert(all.subrange(4, 6) =~= header.subrange(4, 6));
    assert(all.subrange(24, 28) =~= header.subrange(24, 28));
    assert(all[6] == header[6]);
}

} // verus!
