//! Which frames there are, and what two sides of a conversation may expect.

#[allow(unused_imports)]
use crate::document::Tree;
#[allow(unused_imports)]
use crate::frame::{
    frame_bytes, payload_fault, FrameKind, FrameView, ProtocolError, MAX_CONTROL_PAYLOAD,
    MAX_LOG_PAYLOAD, PROTOCOL_VERSION,
};
#[allow(unused_imports)]
use crate::ids::ClientInstanceId;
#[allow(unused_imports)]
use crate::ipc::{HandshakeView, ResponseView};
#[allow(unused_imports)]
use crate::session::{
    app_ack, app_kinds, client_hello, client_kinds, outcome_of, speaks, ClientStep,
};
use vstd::prelude::*;

verus! {

/// The kinds of frames are numbered from one on, in the order in which they are listed; each
/// is read from the byte that stands for it, and no other byte stands for any.
pub proof fn law_kinds_are_numbered(kind: FrameKind, value: u8, i: int)
    ensures
        0 <= i < app_kinds().len() ==> app_kinds()[i].byte() == i + 1,
        FrameKind::of_byte(kind.byte()) == Some(kind),
        FrameKind::of_byte(value) == Some(kind) ==> value == kind.byte(),
        FrameKind::of_byte(value) is Some <==> 1 <= value <= app_kinds().len(),
        app_kinds().len() == 9,
        app_kinds().contains(kind),
        client_kinds().contains(kind) <==> kind != FrameKind::Ping && kind != FrameKind::Pong,
{
    let all = app_kinds();
    assert(all[0] == FrameKind::Handshake && all[1] == FrameKind::HandshakeAck);
    assert(all[2] == FrameKind::Request && all[3] == FrameKind::Response);
    assert(all[4] == FrameKind::Event && all[5] == FrameKind::Log && all[6] == FrameKind::Gap);
    assert(all[7] == FrameKind::Ping && all[8] == FrameKind::Pong);
    let some = client_kinds();
    assert(some.len() == 7);
    assert(forall|k: int| 0 <= k < 7 ==> some[k] == all[k]);
    assert(some[0] == FrameKind::Handshake && some[1] == FrameKind::HandshakeAck);
    assert(some[2] == FrameKind::Request && some[3] == FrameKind::Response);
    assert(some[4] == FrameKind::Event && some[5] == FrameKind::Log && some[6] == FrameKind::Gap);
}

/// A frame may be sent exactly if its payload is not too long for its kind and, unless it is
/// a ping or a pong, not empty; only logs have a limit of their own.
pub proof fn law_payloads_are_bounded(kind: FrameKind, len: nat)
    ensures
        payload_fault(kind, len) is None <==> len <= (if kind == FrameKind::Log {
            MAX_LOG_PAYLOAD
        } else {
            MAX_CONTROL_PAYLOAD
        }) && (len > 0 || kind == FrameKind::Ping || kind == FrameKind::Pong),
        len > 0 && len > kind.limit() ==> (payload_fault(
            kind,
            len,
        ) matches Some(ProtocolError::OversizedPayload { .. })),
        len == 0 && kind != FrameKind::Ping && kind != FrameKind::Pong ==> payload_fault(kind, len)
            == Some(ProtocolError::EmptyPayload),
{
}

/// Two sides understand each other exactly if the client speaks the version of this crate;
/// one that speaks only earlier or only later ones is not answered.
pub proof fn law_versions_must_meet(handshake: HandshakeView)
    ensures
        speaks(handshake) <==> !(handshake.protocol_max < PROTOCOL_VERSION)
            && !(handshake.protocol_min > PROTOCOL_VERSION),
        handshake.protocol_min > handshake.protocol_max ==> !speaks(handshake),
{
}

/// Both sides say the same of the protocol, of the schema and of what a frame may hold, and
/// the client knows no kind of frame that the app does not.
pub proof fn law_both_sides_say_the_same(
    client: ClientInstanceId,
    client_version: Seq<char>,
    app_version: Seq<char>,
    kind: FrameKind,
)
    ensures
        ({
            let hello = client_hello(client, client_version);
            let ack = app_ack(app_version);
            &&& hello.client_instance_id == client
            &&& hello.client_version == client_version
            &&& ack.app_version == app_version
            &&& hello.protocol_min <= ack.selected_protocol <= hello.protocol_max
            &&& hello.schema_version == ack.schema_version
            &&& hello.max_control_payload == ack.max_control_payload
            &&& hello.max_log_payload == ack.max_log_payload
            &&& hello.supported_frame_kinds.contains(kind) ==> ack.supported_frame_kinds.contains(
                kind,
            )
        }),
{
    law_kinds_are_numbered(kind, 0, 0);
}

/// A client goes by what it was answered: what went well is a success with the result, what
/// did not is a failure with the message; and it is never both.
pub proof fn law_clients_believe_the_answer(response: ResponseView, step: ClientStep)
    requires
        outcome_of(response, step),
    ensures
        response.ok <==> step is Succeeded,
        !response.ok <==> step is Failed,
        response.ok && response.result is Some ==> (step matches ClientStep::Succeeded(result)
            && Some(result@) == response.result),
        response.ok && response.result is None ==> (step matches ClientStep::Succeeded(result)
            && result@ == Tree::Null),
        !response.ok && response.error is Some ==> (step matches ClientStep::Failed(reason)
            && reason@ == response.error->0.message),
{
}

} // verus!
