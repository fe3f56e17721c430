//! A conversation over the socket, seen from either end.

use crate::document::Document;
#[allow(unused_imports)]
use crate::document::Tree;
use crate::frame::{
    Frame, FrameKind, ProtocolError, MAX_CONTROL_PAYLOAD, MAX_LOG_PAYLOAD, PROTOCOL_VERSION,
};
#[allow(unused_imports)]
use crate::frame::FrameView;
use crate::ids::ClientInstanceId;
use crate::ipc::{Handshake, HandshakeAck, IpcResponse};
#[allow(unused_imports)]
use crate::ipc::{
    ack_of, handshake_of, response_of, AckView, HandshakeView, ResponseView,
};
use crate::ipc_command::IpcCommand;
#[allow(unused_imports)]
use crate::ipc_command::{command_readable, command_reads};
#[allow(unused_imports)]
use crate::outside::{json_parsed, json_written};
use vstd::prelude::*;

verus! {

/// The version of the notation of commands and answers.
pub const SCHEMA_VERSION: u16 = 1;

/// Why a conversation ends.
#[derive(Clone, Debug, PartialEq, Eq)]
#[allow(inconsistent_fields)]
pub enum SessionEnd {
    /// The first frame is no handshake.
    NoHandshake,
    /// Neither end speaks a version that the other does.
    NoCommonVersion,
    /// A frame came that is no request.
    NotARequest,
    /// A payload does not hold what the frame says it does.
    Malformed(String),
    /// The answer to a handshake is none.
    BadHandshakeAnswer,
    /// A frame came that does not answer the request.
    MismatchedAnswer,
    /// A frame cannot be sent.
    Unsendable(ProtocolError),
}

impl SessionEnd {
    /// The message shown for the end of a conversation.
    pub open spec fn text(self) -> Seq<char> {
        match self {
            SessionEnd::NoHandshake => "first IPC frame must be a handshake"@,
            SessionEnd::NoCommonVersion => "no mutually supported protocol version"@,
            SessionEnd::NotARequest => "unexpected non-request frame"@,
            SessionEnd::Malformed(reason) => reason@,
            SessionEnd::BadHandshakeAnswer => "invalid app handshake response"@,
            SessionEnd::MismatchedAnswer => "mismatched IPC response"@,
            SessionEnd::Unsendable(error) => error.text(),
        }
    }

    /// The message shown for the end of a conversation.
    pub fn message(&self) -> (r: String)
        ensures
            r@ == self.text(),
    {
        match self {
            SessionEnd::NoHandshake => "first IPC frame must be a handshake".to_owned(),
            SessionEnd::NoCommonVersion => "no mutually supported protocol version".to_owned(),
            SessionEnd::NotARequest => "unexpected non-request frame".to_owned(),
            SessionEnd::Malformed(reason) => reason.as_str().to_owned(),
            SessionEnd::BadHandshakeAnswer => "invalid app handshake response".to_owned(),
            SessionEnd::MismatchedAnswer => "mismatched IPC response".to_owned(),
            SessionEnd::Unsendable(error) => error.message(),
        }
    }
}

/// The kinds of frames that the app knows.
pub open spec fn app_kinds() -> Seq<FrameKind> {
    seq![
        FrameKind::Handshake,
        FrameKind::HandshakeAck,
        FrameKind::Request,
        FrameKind::Response,
        FrameKind::Event,
        FrameKind::Log,
        FrameKind::Gap,
        FrameKind::Ping,
        FrameKind::Pong,
    ]
}

/// The kinds of frames that a client knows.
pub open spec fn client_kinds() -> Seq<FrameKind> {
    app_kinds().take(7)
}

fn client_frame_kinds() -> (r: Vec<FrameKind>)
    ensures
        r@ == client_kinds(),
{
    let mut kinds: Vec<FrameKind> = Vec::new();
    kinds.push(FrameKind::Handshake);
    kinds.push(FrameKind::HandshakeAck);
    kinds.push(FrameKind::Request);
    kinds.push(FrameKind::Response);
    kinds.push(FrameKind::Event);
    kinds.push(FrameKind::Log);
    kinds.push(FrameKind::Gap);
    assert(kinds@ =~= client_kinds());
    kinds
}

/// What the app answers to a handshake.
pub open spec fn app_ack(app_version: Seq<char>) -> AckView {
    AckView {
        app_version,
        selected_protocol: PROTOCOL_VERSION,
        schema_version: SCHEMA_VERSION,
        max_control_payload: MAX_CONTROL_PAYLOAD as u32,
        max_log_payload: MAX_LOG_PAYLOAD as u32,
        supported_frame_kinds: app_kinds(),
    }
}

/// What the app answers to a handshake.
pub fn make_ack(app_version: &str) -> (r: HandshakeAck)
    ensures
        r@ == app_ack(app_version@),
{
    let mut kinds = client_frame_kinds();
    kinds.push(FrameKind::Ping);
    kinds.push(FrameKind::Pong);
    assert(kinds@ =~= app_kinds());
    HandshakeAck {
        app_version: app_version.to_owned(),
        selected_protocol: PROTOCOL_VERSION,
        schema_version: SCHEMA_VERSION,
        max_control_payload: MAX_CONTROL_PAYLOAD as u32,
        max_log_payload: MAX_LOG_PAYLOAD as u32,
        supported_frame_kinds: kinds,
    }
}

/// What a payload stands for, read as JSON.
pub open spec fn payload_tree(frame: FrameView) -> Option<Tree> {
    json_parsed(frame.payload)
}

/// The handshake that a frame holds.
pub open spec fn offered(frame: FrameView, default: ClientInstanceId) -> Option<HandshakeView> {
    match payload_tree(frame) {
        Some(tree) => handshake_of(tree, default),
        None => None,
    }
}

/// The versions that a client speaks are among those of this crate.
pub open spec fn speaks(handshake: HandshakeView) -> bool {
    handshake.protocol_min <= PROTOCOL_VERSION <= handshake.protocol_max
}

/// A frame is sent: it holds what it should and nothing else.
pub open spec fn holds(
    frame: FrameView,
    kind: FrameKind,
    correlation_id: u128,
    payload: Seq<u8>,
) -> bool {
    frame == (FrameView {
        version: PROTOCOL_VERSION,
        kind,
        flags: 0,
        correlation_id,
        payload,
    })
}

fn send(kind: FrameKind, correlation_id: u128, payload: Vec<u8>) -> (r: Result<Frame, SessionEnd>)
    ensures
        match r {
            Ok(frame) => payload@.len() <= MAX_CONTROL_PAYLOAD && holds(
                frame@,
                kind,
                correlation_id,
                payload@,
            ),
            Err(end) => payload@.len() > MAX_CONTROL_PAYLOAD && end is Unsendable,
        },
{
    match Frame::control(kind, correlation_id, payload) {
        Ok(frame) => Ok(frame),
        Err(error) => Err(SessionEnd::Unsendable(error)),
    }
}

fn malformed(reason: &str) -> (r: SessionEnd)
    ensures
        r is Malformed,
{
    SessionEnd::Malformed(reason.to_owned())
}

/// Answers the first frame of a client.
pub fn greet(first: &Frame, app_version: &str, default: ClientInstanceId) -> (r: Result<
    (Handshake, Frame),
    SessionEnd,
>)
    ensures
        first@.kind != FrameKind::Handshake ==> r == Err::<(Handshake, Frame), SessionEnd>(
            SessionEnd::NoHandshake,
        ),
        first@.kind == FrameKind::Handshake ==> match offered(first@, default) {
            None => r matches Err(end) && end is Malformed,
            Some(handshake) => if !speaks(handshake) {
                r == Err::<(Handshake, Frame), SessionEnd>(SessionEnd::NoCommonVersion)
            } else {
                match r {
                    Ok(answer) => answer.0@ == handshake && holds(
                        answer.1@,
                        FrameKind::HandshakeAck,
                        first@.correlation_id,
                        json_written(app_ack(app_version@).tree()),
                    ),
                    Err(end) => end is Unsendable && json_written(
                        app_ack(app_version@).tree(),
                    ).len() > MAX_CONTROL_PAYLOAD,
                }
            },
        },
{
    match first.kind {
        FrameKind::Handshake => {},
        _ => {
            return Err(SessionEnd::NoHandshake);
        },
    }
    let document = match first.decode_json() {
        Ok(document) => document,
        Err(error) => {
            return Err(SessionEnd::Malformed(error.message()));
        },
    };
    let handshake = match Handshake::read(&document, default) {
        Some(handshake) => handshake,
        None => {
            return Err(malformed("the handshake is malformed"));
        },
    };
    if handshake.protocol_min > PROTOCOL_VERSION || handshake.protocol_max < PROTOCOL_VERSION {
        return Err(SessionEnd::NoCommonVersion);
    }
    match send(
        FrameKind::HandshakeAck,
        first.correlation_id,
        make_ack(app_version).to_json(),
    ) {
        Ok(frame) => Ok((handshake, frame)),
        Err(end) => Err(end),
    }
}

/// What the app does with a frame.
#[derive(Debug, PartialEq, Eq)]
#[allow(inconsistent_fields)]
pub enum ServerStep {
    /// Send the frame.
    Reply(Frame),
    /// Carry out the command and answer it under this identifier.
    Execute { command: IpcCommand, correlation_id: u128 },
    /// End the conversation.
    Close(SessionEnd),
}

/// What is done about a frame of a client that has been greeted.
pub open spec fn is_served(frame: FrameView, step: ServerStep) -> bool {
    match step {
        ServerStep::Reply(reply) => frame.kind == FrameKind::Ping && reply@ == (FrameView {
            kind: FrameKind::Pong,
            ..frame
        }),
        ServerStep::Execute { command, correlation_id } => {
            &&& frame.kind == FrameKind::Request
            &&& correlation_id == frame.correlation_id
            &&& payload_tree(frame) matches Some(tree) && command_reads(tree, command)
        },
        ServerStep::Close(_) => frame.kind != FrameKind::Ping && !(frame.kind == FrameKind::Request
            && (payload_tree(frame) matches Some(tree) && command_readable(tree))),
    }
}

/// Decides what to do with a frame that follows the handshake.
pub fn serve(frame: Frame) -> (r: ServerStep)
    ensures
        is_served(frame@, r),
        frame@.kind == FrameKind::Ping ==> (r matches ServerStep::Reply(reply) && reply@ == (
        FrameView { kind: FrameKind::Pong, ..frame@ })),
        frame@.kind != FrameKind::Ping && frame@.kind != FrameKind::Request ==> r
            == ServerStep::Close(SessionEnd::NotARequest),
        frame@.kind == FrameKind::Request ==> match payload_tree(frame@) {
            Some(tree) => if command_readable(tree) {
                r matches ServerStep::Execute { command, correlation_id } && command_reads(
                    tree,
                    command,
                ) && correlation_id == frame@.correlation_id
            } else {
                r matches ServerStep::Close(end) && end is Malformed
            },
            None => r matches ServerStep::Close(end) && end is Malformed,
        },
{
    match frame.kind {
        FrameKind::Ping => ServerStep::Reply(
            Frame {
                version: frame.version,
                kind: FrameKind::Pong,
                flags: frame.flags,
                correlation_id: frame.correlation_id,
                payload: frame.payload,
            },
        ),
        FrameKind::Request => match frame.decode_json() {
            Ok(document) => match IpcCommand::read(&document) {
                Some(command) => ServerStep::Execute {
                    command,
                    correlation_id: frame.correlation_id,
                },
                None => ServerStep::Close(malformed("the command is malformed")),
            },
            Err(error) => ServerStep::Close(SessionEnd::Malformed(error.message())),
        },
        _ => ServerStep::Close(SessionEnd::NotARequest),
    }
}

/// The frame that answers a request, if the answer has a notation that fits into one.
pub fn answer(correlation_id: u128, response: &IpcResponse) -> (r: Result<Frame, SessionEnd>)
    ensures
        r is Ok <==> response@.writable() && json_written(response@.tree()).len()
            <= MAX_CONTROL_PAYLOAD,
        r matches Ok(frame) ==> holds(
            frame@,
            FrameKind::Response,
            correlation_id,
            json_written(response@.tree()),
        ) && (response@.tree().writable(127) ==> payload_tree(frame@) == Some(response@.tree())),
        r matches Err(end) ==> if response@.writable() {
            end is Unsendable
        } else {
            end is Malformed
        },
{
    match response.to_json() {
        Some(bytes) => send(FrameKind::Response, correlation_id, bytes),
        None => Err(malformed("the answer has no notation")),
    }
}

/// What a client says first.
pub open spec fn client_hello(client: ClientInstanceId, version: Seq<char>) -> HandshakeView {
    HandshakeView {
        client_instance_id: client,
        client_version: version,
        protocol_min: PROTOCOL_VERSION,
        protocol_max: PROTOCOL_VERSION,
        schema_version: SCHEMA_VERSION,
        max_control_payload: MAX_CONTROL_PAYLOAD as u32,
        max_log_payload: MAX_LOG_PAYLOAD as u32,
        supported_frame_kinds: client_kinds(),
    }
}

/// The first frame of a client.
pub fn hello(client_instance_id: ClientInstanceId, client_version: &str, correlation_id: u128) -> (r:
    Result<Frame, SessionEnd>)
    ensures
        ({
            let hello = client_hello(client_instance_id, client_version@);
            match r {
                Ok(frame) => holds(
                    frame@,
                    FrameKind::Handshake,
                    correlation_id,
                    json_written(hello.tree()),
                ) && payload_tree(frame@) == Some(hello.tree()),
                Err(end) => end is Unsendable && json_written(hello.tree()).len()
                    > MAX_CONTROL_PAYLOAD,
            }
        }),
{
    let handshake = Handshake {
        client_instance_id,
        client_version: client_version.to_owned(),
        protocol_min: PROTOCOL_VERSION,
        protocol_max: PROTOCOL_VERSION,
        schema_version: SCHEMA_VERSION,
        max_control_payload: MAX_CONTROL_PAYLOAD as u32,
        max_log_payload: MAX_LOG_PAYLOAD as u32,
        supported_frame_kinds: client_frame_kinds(),
    };
    send(FrameKind::Handshake, correlation_id, handshake.to_json())
}

/// The answer to a handshake that a frame holds.
pub open spec fn acknowledged(frame: FrameView) -> Option<AckView> {
    match payload_tree(frame) {
        Some(tree) => ack_of(tree),
        None => None,
    }
}

/// Checks the frame that answers a handshake.
pub fn check_ack(frame: &Frame, correlation_id: u128) -> (r: Result<HandshakeAck, SessionEnd>)
    ensures
        ({
            let answers = frame@.kind == FrameKind::HandshakeAck && frame@.correlation_id
                == correlation_id;
            match r {
                Ok(ack) => answers && acknowledged(frame@) == Some(ack@),
                Err(end) => if answers {
                    acknowledged(frame@) is None && end is Malformed
                } else {
                    end == SessionEnd::BadHandshakeAnswer
                },
            }
        }),
{
    match frame.kind {
        FrameKind::HandshakeAck => {},
        _ => {
            return Err(SessionEnd::BadHandshakeAnswer);
        },
    }
    if frame.correlation_id != correlation_id {
        return Err(SessionEnd::BadHandshakeAnswer);
    }
    match frame.decode_json() {
        Ok(document) => match HandshakeAck::read(&document) {
            Some(ack) => Ok(ack),
            None => Err(malformed("the answer to the handshake is malformed")),
        },
        Err(error) => Err(SessionEnd::Malformed(error.message())),
    }
}

/// The frame that asks for a command.
pub fn request(command: &IpcCommand, correlation_id: u128) -> (r: Result<Frame, SessionEnd>)
    ensures
        match r {
            Ok(frame) => holds(
                frame@,
                FrameKind::Request,
                correlation_id,
                json_written(command.tree()),
            ) && payload_tree(frame@) == Some(command.tree()) && command_reads(
                command.tree(),
                *command,
            ),
            Err(end) => end is Unsendable && json_written(command.tree()).len()
                > MAX_CONTROL_PAYLOAD,
        },
{
    send(FrameKind::Request, correlation_id, command.to_json())
}

/// What a client does with a frame.
#[derive(Debug, PartialEq, Eq)]
#[allow(inconsistent_fields)]
pub enum ClientStep {
    /// Wait for the next frame.
    Skip,
    /// The command was carried out, with this result.
    Succeeded(Document),
    /// The command was not carried out, for this reason.
    Failed(String),
    /// The conversation cannot go on.
    Broken(SessionEnd),
}

/// The answer that a frame holds.
pub open spec fn answered(frame: FrameView) -> Option<ResponseView> {
    match payload_tree(frame) {
        Some(tree) => response_of(tree),
        None => None,
    }
}

/// What a client makes of an answer.
pub open spec fn outcome_of(response: ResponseView, step: ClientStep) -> bool {
    if response.ok {
        step matches ClientStep::Succeeded(result) && result@ == match response.result {
            Some(result) => result,
            None => Tree::Null,
        }
    } else {
        step matches ClientStep::Failed(reason) && reason@ == match response.error {
            Some(error) => error.message,
            None => "unknown service error"@,
        }
    }
}

/// Decides what to do with a frame that comes after a request.
pub fn take_reply(frame: &Frame, correlation_id: u128) -> (r: ClientStep)
    ensures
        frame@.kind == FrameKind::Event ==> r is Skip,
        frame@.kind != FrameKind::Event && (frame@.kind != FrameKind::Response
            || frame@.correlation_id != correlation_id) ==> r == ClientStep::Broken(
            SessionEnd::MismatchedAnswer,
        ),
        frame@.kind == FrameKind::Response && frame@.correlation_id == correlation_id ==> match answered(
            frame@,
        ) {
            Some(response) => outcome_of(response, r),
            None => r matches ClientStep::Broken(end) && end is Malformed,
        },
{
    match frame.kind {
        FrameKind::Event => {
            return ClientStep::Skip;
        },
        FrameKind::Response => {},
        _ => {
            return ClientStep::Broken(SessionEnd::MismatchedAnswer);
        },
    }
    if frame.correlation_id != correlation_id {
        return ClientStep::Broken(SessionEnd::MismatchedAnswer);
    }
    let document = match frame.decode_json() {
        Ok(document) => document,
        Err(error) => {
            return ClientStep::Broken(SessionEnd::Malformed(error.message()));
        },
    };
    let response = match IpcResponse::read(&document) {
        Some(response) => response,
        None => {
            return ClientStep::Broken(malformed("the answer is malformed"));
        },
    };
    if response.ok {
        match response.result {
            Some(result) => ClientStep::Succeeded(result),
            None => ClientStep::Succeeded(Document::Null),
        }
    } else {
        match response.error {
            Some(error) => ClientStep::Failed(error.message),
            None => ClientStep::Failed("unknown service error".to_owned()),
        }
    }
}

/// The command that the app carries out is the one that the client sent: it is of the
/// same kind, and all of its fields agree. `sent` is the frame that `request` makes, and
/// `received` what `serve` makes of it.
pub proof fn law_commands_arrive_as_they_were_sent(
    command: IpcCommand,
    sent: FrameView,
    received: IpcCommand,
)
    requires
        payload_tree(sent) == Some(command.tree()),
        command_reads(command.tree(), command),
        payload_tree(sent) matches Some(tree) && command_reads(tree, received),
    ensures
        received.tree() == command.tree(),
{
    crate::command_law::law_one_notation_one_command(command.tree(), received, command);
}

/// What the service answers is what the client is told: the result of a command that
/// was carried out, else the message of the error. `frame` is the frame that `answer`
/// makes, and `step` what `take_reply` makes of it.
pub proof fn law_answers_reach_the_client(
    response: ResponseView,
    frame: FrameView,
    step: ClientStep,
)
    requires
        response.plain(),
        payload_tree(frame) == Some(response.tree()),
        answered(frame) is Some ==> outcome_of(answered(frame)->0, step),
    ensures
        response.ok && response.result is Some ==> (step matches ClientStep::Succeeded(result)
            && result@ == response.result->0),
        !response.ok && response.error is Some ==> (step matches ClientStep::Failed(reason)
            && reason@ == (response.error->0).message),
{
    crate::ipc::law_responses_survive_the_wire(response);
}

/// A client of this crate speaks a version that the app does.
pub proof fn law_this_client_is_welcome(client: ClientInstanceId, version: Seq<char>)
    ensures
        speaks(client_hello(client, version)),
{
}

} // verus!
