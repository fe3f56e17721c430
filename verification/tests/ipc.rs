use bytes::{BufMut, BytesMut};
use tollgate::document::Document;
use tollgate::frame::{
    check_peer_uid, Frame, FrameCodec, FrameKind, ProtocolError, MAX_CONTROL_PAYLOAD,
    MAX_LOG_PAYLOAD, PROTOCOL_VERSION,
};
use tollgate::ids::{ClientInstanceId, CommandId, QueueItemId, RepositoryId};
use tollgate::ipc::{IpcResponse, StructuredError};
use tollgate::ipc_command::IpcCommand;
use tollgate::json::{read_json, to_json};
use tollgate::oid::GitOid;
use tollgate::service::{
    classify_service_error, encode_candidate_submission_error, respond, route, CandidateRefusal,
    ServiceCall, LOG_FRAME_LIMIT, STRUCTURED_SERVICE_ERROR_PREFIX,
};
use tollgate::session::{
    answer, check_ack, greet, hello, request, serve, take_reply, ClientStep, ServerStep,
    SessionEnd,
};
use tollgate::state::CleanupPolicy;
use tollgate::user_socket::{bind_user_socket, SocketFile, SocketPlan, SocketRefusal};

const MAGIC: [u8; 4] = *b"TGL1";

fn json(text: &str) -> Document {
    Frame::control(FrameKind::Request, 1, text.as_bytes().to_vec())
        .unwrap()
        .decode_json()
        .unwrap()
}

fn text_of<'a>(document: &'a Document, field: &str) -> &'a str {
    match document.get(field) {
        Some(Document::Text(text)) => text,
        _ => panic!("no text under {field}"),
    }
}

fn sent(frame: &Frame) -> Frame {
    let mut buffer = BytesMut::new();
    FrameCodec.encode(frame, &mut buffer).unwrap();
    FrameCodec.decode(&mut buffer).unwrap().unwrap()
}

#[test]
fn fragmented_frames_resume_without_skipping_bytes() {
    let original = Frame::control(
        FrameKind::Request,
        0x0190_0000_0000_7000_8000_0000_0000_0001,
        b"{\"hello\":\"world\"}".to_vec(),
    )
    .unwrap();
    let mut encoded = BytesMut::new();
    FrameCodec.encode(&original, &mut encoded).unwrap();
    let second = encoded.split_off(10);
    let codec = FrameCodec;
    assert!(codec.decode(&mut encoded).unwrap().is_none());
    encoded.extend_from_slice(&second);
    assert_eq!(codec.decode(&mut encoded).unwrap().unwrap(), original);
}

#[test]
fn oversized_declaration_fails_before_payload_allocation() {
    let mut bytes = BytesMut::new();
    bytes.put_slice(&MAGIC);
    bytes.put_u16(PROTOCOL_VERSION);
    bytes.put_u8(FrameKind::Log.code());
    bytes.put_u8(0);
    bytes.put_slice(&[0; 16]);
    bytes.put_u32((MAX_LOG_PAYLOAD + 1) as u32);
    assert!(matches!(
        FrameCodec.decode(&mut bytes),
        Err(ProtocolError::OversizedPayload { .. })
    ));
}

#[test]
fn two_frames_in_one_buffer_come_out_one_after_the_other() {
    let first = Frame::control(FrameKind::Ping, 1, b"{}".to_vec()).unwrap();
    let second = Frame::control(FrameKind::Pong, 2, b"[1]".to_vec()).unwrap();
    let mut buffer = BytesMut::new();
    FrameCodec.encode(&first, &mut buffer).unwrap();
    FrameCodec.encode(&second, &mut buffer).unwrap();
    assert_eq!(FrameCodec.decode(&mut buffer).unwrap(), Some(first));
    assert_eq!(FrameCodec.decode(&mut buffer).unwrap(), Some(second));
    assert_eq!(FrameCodec.decode(&mut buffer).unwrap(), None);
}

#[test]
fn malformed_headers_are_refused() {
    let frame = Frame::control(FrameKind::Request, 1, b"{}".to_vec()).unwrap();
    let mut good = BytesMut::new();
    FrameCodec.encode(&frame, &mut good).unwrap();
    let mut bad = good.clone();
    bad[0] = b'X';
    assert_eq!(FrameCodec.decode(&mut bad), Err(ProtocolError::InvalidMagic));
    let mut bad = good.clone();
    bad[5] = 9;
    assert_eq!(
        FrameCodec.decode(&mut bad),
        Err(ProtocolError::UnsupportedVersion(9))
    );
    let mut bad = good;
    bad[6] = 99;
    assert_eq!(
        FrameCodec.decode(&mut bad),
        Err(ProtocolError::UnknownFrameKind(99))
    );
    assert_eq!(FrameKind::Log.max_payload(), MAX_LOG_PAYLOAD);
    assert_eq!(FrameKind::Request.max_payload(), MAX_CONTROL_PAYLOAD);
    assert!(Frame::control(FrameKind::Request, 1, vec![b' '; MAX_CONTROL_PAYLOAD + 1]).is_err());
    let empty = Frame::control(FrameKind::Request, 1, Vec::new()).unwrap();
    assert_eq!(
        FrameCodec.encode(&empty, &mut BytesMut::new()),
        Err(ProtocolError::EmptyPayload)
    );
    assert!(FrameKind::Ping.allows_empty());
    assert_eq!(
        check_peer_uid(501, 502),
        Err(ProtocolError::PeerUid {
            expected: 501,
            actual: 502
        })
    );
    assert!(check_peer_uid(501, 501).is_ok());
}

#[test]
fn item_details_can_resolve_a_globally_unique_item_without_a_repository_snapshot() {
    let item_id = QueueItemId(0x0190_0000_0000_7000_8000_0000_0000_0002);
    let value = IpcCommand::ItemDetails {
        repository_id: None,
        item_id,
    }
    .to_document();
    assert_eq!(text_of(&value, "command"), "item-details");
    assert_eq!(text_of(&value, "item_id"), item_id.to_text());
    assert!(value.get("repository_id").is_none());
    assert!(matches!(
        IpcCommand::read(&value),
        Some(IpcCommand::ItemDetails { repository_id: None, item_id: read }) if read == item_id
    ));
}

#[test]
fn commands_are_read_strictly() {
    assert!(IpcCommand::read(&json("{\"command\":\"snapshot\"}")).is_some());
    assert!(IpcCommand::read(&json("{\"command\":\"no-such-command\"}")).is_none());
    assert!(IpcCommand::read(&json("{\"command\":\"item-status\"}")).is_none());
    assert!(IpcCommand::read(&json("[]")).is_none());
}

#[test]
fn a_conversation_begins_with_a_handshake() {
    let client = ClientInstanceId(7);
    let first = sent(&hello(client, "1.2.3", 11).ok().unwrap());
    let (handshake, ack) = greet(&first, "4.5.6", ClientInstanceId(0)).ok().unwrap();
    assert_eq!(handshake.client_instance_id, client);
    assert_eq!(handshake.client_version, "1.2.3");
    let ack = check_ack(&sent(&ack), 11).ok().unwrap();
    assert_eq!(ack.app_version, "4.5.6");
    assert_eq!(ack.selected_protocol, PROTOCOL_VERSION);
    let ping = Frame::control(FrameKind::Ping, 1, b"{}".to_vec()).unwrap();
    assert!(matches!(
        greet(&ping, "4.5.6", ClientInstanceId(0)),
        Err(SessionEnd::NoHandshake)
    ));
}

#[test]
fn a_request_is_carried_out_and_answered() {
    let command = IpcCommand::Pause {
        repository_id: RepositoryId(3),
        command_id: CommandId(4),
    };
    let frame = sent(&request(&command, 21).ok().unwrap());
    assert!(matches!(
        serve(frame),
        ServerStep::Execute {
            command: IpcCommand::Pause { repository_id: RepositoryId(3), command_id: CommandId(4) },
            correlation_id: 21,
        }
    ));
    let reply = sent(&answer(21, &respond(Ok(json("{\"a\":1}")))).ok().unwrap());
    assert!(matches!(
        take_reply(&reply, 21),
        ClientStep::Succeeded(Document::Table(ref fields)) if fields.len() == 1
    ));
    assert!(matches!(
        take_reply(&reply, 22),
        ClientStep::Broken(SessionEnd::MismatchedAnswer)
    ));
    let reply = sent(&answer(21, &respond(Err("not found".into()))).ok().unwrap());
    assert!(matches!(
        take_reply(&reply, 21),
        ClientStep::Failed(ref text) if text.contains("not found")
    ));
}

#[test]
fn pings_are_answered_and_strangers_shown_out() {
    let ping = Frame::control(FrameKind::Ping, 5, b"{}".to_vec()).unwrap();
    assert!(matches!(
        serve(ping),
        ServerStep::Reply(ref frame) if frame.kind == FrameKind::Pong && frame.correlation_id == 5
    ));
    let log = Frame::control(FrameKind::Event, 5, b"{}".to_vec()).unwrap();
    assert!(matches!(serve(log), ServerStep::Close(SessionEnd::NotARequest)));
    let garbage = Frame::control(FrameKind::Request, 5, b"not json".to_vec()).unwrap();
    assert!(matches!(
        serve(garbage),
        ServerStep::Close(SessionEnd::Malformed(_))
    ));
}

#[test]
fn responses_read_back() {
    let response = IpcResponse {
        ok: false,
        result: None,
        error: Some(StructuredError {
            code: "not-found".into(),
            message: "no such item".into(),
            retryable: false,
            details: None,
        }),
    };
    let read = IpcResponse::read(&response.to_document()).unwrap();
    assert_eq!(read, response);
}

fn details(encoded: &str) -> StructuredError {
    let rest = encoded
        .strip_prefix(STRUCTURED_SERVICE_ERROR_PREFIX)
        .expect("refusals must cross the channel as structured errors");
    StructuredError::read(&json(rest)).unwrap()
}

fn oid_text(details: &Document, field: &str) -> String {
    let oid = details.get(field).unwrap().read_oid().unwrap();
    oid.to_hex()
}

#[test]
fn stale_candidate_error_preserves_retry_context() {
    let release_oid = GitOid::from_hex("1111111111111111111111111111111111111111").unwrap();
    let source_parent_oid = GitOid::from_hex("2222222222222222222222222222222222222222").unwrap();
    let current_prefix_oid = GitOid::from_hex("3333333333333333333333333333333333333333").unwrap();
    let encoded = encode_candidate_submission_error(
        &CandidateRefusal::StaleQueuePrefix {
            source_parent_oid,
            release_oid,
            queue_revision: 42,
            current_prefix_oid,
        },
        "stale",
    );
    let error = details(&encoded);
    assert_eq!(error.code, "stale-queue-prefix");
    assert!(error.retryable);
    let details = error.details.as_ref().unwrap();
    assert_eq!(details.get("queue_revision"), Some(&Document::Integer(42)));
    assert_eq!(
        oid_text(details, "release_oid"),
        "1111111111111111111111111111111111111111"
    );
    assert_eq!(
        oid_text(details, "source_parent_oid"),
        "2222222222222222222222222222222222222222"
    );
    assert_eq!(
        oid_text(details, "current_prefix_oid"),
        "3333333333333333333333333333333333333333"
    );
    assert!(text_of(details, "retry").contains("release_oid only"));
}

#[test]
fn unpromoted_source_error_never_exposes_the_speculative_prefix_as_a_base() {
    let release_oid = GitOid::from_hex("1111111111111111111111111111111111111111").unwrap();
    let ancestor = GitOid::from_hex("2222222222222222222222222222222222222222").unwrap();
    let encoded = encode_candidate_submission_error(
        &CandidateRefusal::UnpromotedSourceAncestor {
            ancestor,
            release_oid,
        },
        "unpromoted",
    );
    let error = details(&encoded);
    assert_eq!(error.code, "unpromoted-source-ancestor");
    assert!(error.retryable);
    let details = error.details.as_ref().unwrap();
    assert_eq!(
        oid_text(details, "release_oid"),
        "1111111111111111111111111111111111111111"
    );
    assert_eq!(
        oid_text(details, "ancestor_oid"),
        "2222222222222222222222222222222222222222"
    );
    assert!(!text_of(details, "retry").contains("prefix"));
}

#[test]
fn an_unknown_ancestor_is_told_with_the_prefix() {
    let release_oid = GitOid::from_hex("1111111111111111111111111111111111111111").unwrap();
    let ancestor = GitOid::from_hex("2222222222222222222222222222222222222222").unwrap();
    let current_prefix_oid = GitOid::from_hex("3333333333333333333333333333333333333333").unwrap();
    let encoded = encode_candidate_submission_error(
        &CandidateRefusal::UnknownSourceAncestor {
            ancestor,
            release_oid,
            queue_revision: 7,
            current_prefix_oid,
        },
        "unknown",
    );
    assert_eq!(details(&encoded).message, "unknown");
    assert_eq!(
        encode_candidate_submission_error(&CandidateRefusal::Other, "plain"),
        "plain"
    );
}

#[test]
fn a_structured_refusal_reaches_the_client_as_it_is() {
    let release_oid = GitOid::from_hex("1111111111111111111111111111111111111111").unwrap();
    let ancestor = GitOid::from_hex("2222222222222222222222222222222222222222").unwrap();
    let encoded = encode_candidate_submission_error(
        &CandidateRefusal::UnpromotedSourceAncestor {
            ancestor,
            release_oid,
        },
        "unpromoted",
    );
    let response = respond(Err(encoded));
    assert!(!response.ok);
    assert_eq!(response.error.unwrap().code, "unpromoted-source-ancestor");
}

#[test]
fn service_errors_are_classified() {
    assert_eq!(
        classify_service_error("queue revision conflict: expected 1"),
        "revision-conflict"
    );
    assert_eq!(
        classify_service_error("configuration is invalid"),
        "configuration-invalid"
    );
    assert_eq!(classify_service_error("item not found"), "not-found");
    assert_eq!(
        classify_service_error("repository is blocked"),
        "repository-blocked"
    );
    assert_eq!(classify_service_error("boom"), "service-error");
}

#[test]
fn commands_lead_to_calls() {
    assert!(matches!(
        route(IpcCommand::Approve {
            repository_id: RepositoryId(1),
            revision: "HEAD".into(),
            worktree_path: None,
            purpose: None,
            retain_worktree: true,
            command_id: CommandId(2),
        }),
        ServiceCall::Approve { cleanup: CleanupPolicy::RetainWorktree, .. }
    ));
    assert!(matches!(
        route(IpcCommand::Resume {
            repository_id: RepositoryId(1),
            command_id: CommandId(2)
        }),
        ServiceCall::SetPaused { paused: false, .. }
    ));
    assert!(matches!(
        route(IpcCommand::Logs {
            repository_id: RepositoryId(1),
            item_id: QueueItemId(2),
            buildset_id: None,
            step: None,
            start_sequence: 3,
        }),
        ServiceCall::Logs { start_sequence: 3, limit: LOG_FRAME_LIMIT, .. }
    ));
}

#[test]
fn live_authority_socket_cannot_be_replaced() {
    let first = bind_user_socket(None, None, 501, false);
    assert_eq!(first, Ok(SocketPlan::Bind));
    let bound = Some(SocketFile {
        is_socket: true,
        owner: 501,
    });
    let error = bind_user_socket(Some("EWOULDBLOCK"), bound, 501, true).unwrap_err();
    assert!(error.message().contains("authority"));
    let error = bind_user_socket(None, bound, 501, true).unwrap_err();
    assert!(error.message().contains("authority"));
    assert_eq!(bind_user_socket(None, bound, 501, false), Ok(SocketPlan::Ask));
}

#[test]
fn what_is_not_a_socket_of_the_user_is_left_alone() {
    let found = |is_socket: bool, owner: u32| Some(SocketFile { is_socket, owner });
    for file in [found(false, 501), found(true, 0), found(false, 0)] {
        let refusal = bind_user_socket(None, file, 501, false).unwrap_err();
        assert_eq!(refusal, SocketRefusal::Foreign);
        assert!(refusal.is_denial());
        assert_eq!(
            refusal.message(),
            "refusing to replace an unowned or non-socket IPC path"
        );
    }
    let locked = bind_user_socket(Some("EWOULDBLOCK"), None, 501, false).unwrap_err();
    assert_eq!(
        locked.message(),
        "another Tollgate authority owns the app lock: EWOULDBLOCK"
    );
    assert!(!locked.is_denial());
    let live = bind_user_socket(None, found(true, 501), 501, true).unwrap_err();
    assert_eq!(
        live.message(),
        "another Tollgate authority is already listening"
    );
    assert!(!live.is_denial());
}

#[test]
fn answers_with_decimals_and_deep_nesting_are_sent() {
    let mut deep = String::from("1.5");
    for _ in 0..126 {
        deep = format!("[{deep}]");
    }
    let response = IpcResponse {
        ok: true,
        result: Some(json(&deep)),
        error: None,
    };
    let frame = answer(7, &response).unwrap();
    let text = String::from_utf8(frame.payload.to_vec()).unwrap();
    assert_eq!(text, format!("{{\"ok\":true,\"result\":{deep},\"error\":null}}"));
    assert!(matches!(
        take_reply(&frame, 7),
        ClientStep::Succeeded(result) if result == json(&deep)
    ));
    // One level more can be sent, but not be read.
    let deeper = IpcResponse {
        ok: true,
        result: Some(json(&format!("[{deep}]"))),
        error: None,
    };
    assert!(matches!(
        take_reply(&answer(7, &deeper).unwrap(), 7),
        ClientStep::Broken(SessionEnd::Malformed(_))
    ));
    assert!(json("0.1").matches_contents(&json("0.10")));
    assert!(!json("0.1").matches_contents(&json("0.2")));
    assert_eq!(json("[2.5]").duplicate(), json("[2.5]"));
}

#[test]
fn records_may_be_written_as_lists() {
    let id = "00000000-0000-0000-0000-000000000005";
    let list = json(&format!("[\"item-status\",\"{id}\",\"{id}\"]"));
    assert_eq!(
        IpcCommand::read(&list),
        Some(IpcCommand::ItemStatus {
            repository_id: RepositoryId(5),
            item_id: QueueItemId(5),
        })
    );
    assert_eq!(
        IpcCommand::read(&json("[\"initialize\",\"/path\",null]")),
        Some(IpcCommand::Initialize {
            path: "/path".into(),
            run: None,
            bootstrap: true,
            detach_master: false,
        })
    );
    assert_eq!(
        IpcCommand::read(&json("[\"snapshot\"]")),
        Some(IpcCommand::Snapshot)
    );
    for text in [
        "[]",
        "[5]",
        "[\"snapshot\",1]",
        "[\"initialize\",\"/path\"]",
        "[\"unheard-of\"]",
    ] {
        assert_eq!(IpcCommand::read(&json(text)), None);
    }
    let response = IpcResponse::read(&json("[false,null,[\"code\",\"message\",true]]")).unwrap();
    assert_eq!(
        response,
        IpcResponse {
            ok: false,
            result: None,
            error: Some(StructuredError {
                code: "code".into(),
                message: "message".into(),
                retryable: true,
                details: None,
            }),
        }
    );
    assert!(IpcResponse::read(&json("[true,null]")).is_none());
    assert!(IpcResponse::read(&json("[true,null,null,null]")).is_none());
    let oid = json(&format!("[\"sha1\",\"{}\"]", "11".repeat(20)));
    assert_eq!(oid.read_oid().map(|oid| oid.to_hex()), Some("11".repeat(20)));
}

#[test]
fn decimals_are_numbers_that_are_not_whole() {
    let whole = Document::Decimal(serde_json::Number::from(5u64));
    assert!(!whole.can_write());
    assert_eq!(to_json(&whole), None);
    assert_eq!(to_json(&Document::List(vec![whole])), None);
    for notation in ["1.5", "-0.0", "1e300", "18446744073709551616"] {
        let read = read_json(notation.as_bytes()).unwrap();
        assert!(matches!(read, Document::Decimal(_)));
        assert!(read.can_write());
    }
    assert_eq!(
        to_json(&read_json(b"1.5").unwrap()),
        Some(b"1.5".to_vec())
    );
}

#[test]
fn object_identifiers_are_taken_as_they_are_written() {
    let command = |oid: &str| {
        let text = format!(
            "{{\"command\":\"reconcile\",\"repository_id\":\"{}\",\"command_id\":\"{}\",\
             \"expected_observed_master\":{oid}}}",
            RepositoryId(1).to_text(),
            CommandId(2).to_text()
        );
        IpcCommand::read(&read_json(text.as_bytes()).unwrap())
    };
    let seen = |read: Option<IpcCommand>| match read {
        Some(IpcCommand::Reconcile {
            expected_observed_master: Some(oid),
            ..
        }) => Some(oid.as_bytes().to_vec()),
        _ => None,
    };
    assert_eq!(
        seen(command("{\"format\":\"sha1\",\"bytes\":\"0A0b\"}")),
        Some(vec![10, 11])
    );
    assert_eq!(
        seen(command("[{\"sha256\":null},\"ff\"]")),
        Some(vec![255])
    );
    assert_eq!(command("{\"format\":\"sha2\",\"bytes\":\"00\"}"), None);
    assert_eq!(command("{\"format\":\"sha1\",\"bytes\":\"0\"}"), None);
    assert_eq!(command("[\"sha1\",\"00\",1]"), None);
}
