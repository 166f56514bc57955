use std::time::Duration;

use serde_json::Value;
use session_protocol::acp_connect::{SessionInfoWire, SessionListWire};
use session_protocol::acp_tunnel::{catch_up_from_proto, catch_up_to_proto, SessionCatchUp};
use session_protocol::EventSeq;
use session_protocol::clone_plan::{clone_open_action, clone_prompt_title, repo_name_from_url, CloneOpen};
use session_protocol::coalescer::{delta_text, DeltaCoalescer, DeltaDecision, FlushedDelta};
use session_protocol::credentials::{
    credential_change, credential_username, CredentialChange, CredentialStore,
};
use session_protocol::dirty_buffers::{should_restore, snapshot_file_name, snapshot_plan, SnapshotPlan};
use session_protocol::external::{not_connected_message, ConnectPlan, ExternalAgents};
use session_protocol::generating::GeneratingSessions;
use session_protocol::session_info::{session_info_from_wire, session_info_wire, AgentSessionInfo};
use session_protocol::models::{
    model_info_from_wire, model_info_wire, model_list_from_wire, model_list_wire, AgentModelGroup,
    AgentModelInfo, AgentModelList, ModelInfoWire, ModelListWire,
};
use session_protocol::mux::{GuiPairing, StreamKind};
use session_protocol::prompts::{
    elicitation_after_wait, permission_after_wait, permission_without_asking, AfterReply, Attempt,
    ElicitationAnswer, PermissionAnswer, PermissionOption, PermissionOptionKind, PermissionOptions,
    PromptClock, PromptWait, RequestPermissionOutcome,
};
use session_protocol::rpc_dispatch::{
    method_not_found_reply, missing_method_reply, prompt_reply, reply, route_external_rpc,
    route_gui_inbound, route_host_rpc, rpc_method, unsupported_inbound_reply, ExternalRoute,
    GuiInbound, HandlerOutcome, HostRoute, PromptReply, RpcMethod, SessionListUpdated,
};
use session_protocol::{
    error_response, methods, notification, request, success, DisconnectedPromptWait,
    INTERNAL_ERROR, INVALID_PARAMS, INVALID_REQUEST, METHOD_NOT_FOUND, NATIVE_AGENT_ID,
};

fn text_of(v: &FlushedDelta) -> &str {
    v.text.as_str()
}

// ---- dispatch ----

#[test]
fn method_names_map_to_methods() {
    assert_eq!(rpc_method("initialize"), RpcMethod::Initialize);
    assert_eq!(rpc_method("session/prompt"), RpcMethod::SessionPrompt);
    assert_eq!(rpc_method("zed/acp_connect"), RpcMethod::AcpConnect);
    assert_eq!(rpc_method(methods::SET_CREDENTIALS), RpcMethod::SetCredentials);
    assert_eq!(rpc_method(methods::LIST_MODELS), RpcMethod::ListModels);
    assert_eq!(rpc_method("session/bogus"), RpcMethod::Other);
}

#[test]
fn native_messages_go_to_native_agent() {
    let message = request(Value::from(1), methods::SESSION_NEW, Value::Null);
    assert_eq!(route_host_rpc(&message, ""), HostRoute::Native(RpcMethod::SessionNew));
    assert_eq!(route_host_rpc(&message, NATIVE_AGENT_ID), HostRoute::Native(RpcMethod::SessionNew));
}

#[test]
fn connect_and_foreign_agents_go_external() {
    let connect = request(Value::from(1), methods::ACP_CONNECT, Value::Null);
    assert_eq!(route_host_rpc(&connect, ""), HostRoute::External);
    let prompt = request(Value::from(2), methods::SESSION_PROMPT, Value::Null);
    assert_eq!(route_host_rpc(&prompt, "gemini"), HostRoute::External);
}

#[test]
fn responses_are_acknowledged_and_bare_messages_refused() {
    let response = success(Some(Value::from(3)), Value::Null);
    assert_eq!(route_host_rpc(&response, ""), HostRoute::AcknowledgeResponse);
    let mut bare = success(Some(Value::from(4)), Value::Null);
    bare.result = None;
    assert_eq!(route_host_rpc(&bare, ""), HostRoute::MissingMethod);
}

#[test]
fn external_children_serve_only_acp_methods() {
    let connect = request(Value::from(1), methods::ACP_CONNECT, Value::Null);
    assert_eq!(route_external_rpc(&connect), ExternalRoute::Method(RpcMethod::AcpConnect));
    let init = request(Value::from(1), methods::INITIALIZE, Value::Null);
    assert_eq!(route_external_rpc(&init), ExternalRoute::NotFound);
    let list = request(Value::from(1), methods::SESSION_LIST, Value::Null);
    assert_eq!(route_external_rpc(&list), ExternalRoute::NotFound);
    let response = success(Some(Value::from(1)), Value::Null);
    assert_eq!(route_external_rpc(&response), ExternalRoute::MissingMethod);
}

#[test]
fn handler_outcomes_become_replies() {
    let bad = reply(Some(Value::from(7)), HandlerOutcome::InvalidParams("bad".to_string()));
    let error = bad.error.expect("error");
    assert_eq!(error.code, INVALID_PARAMS);
    assert_eq!(error.message, "bad");
    assert_eq!(bad.id, Some(Value::from(7)));

    let failed = reply(None, HandlerOutcome::Failed("boom".to_string()));
    assert_eq!(failed.error.expect("error").code, INTERNAL_ERROR);

    let ok = reply(Some(Value::from(8)), HandlerOutcome::Succeeded(Value::from("done")));
    assert_eq!(ok.result, Some(Value::from("done")));
    assert!(ok.error.is_none());
}

#[test]
fn refusal_replies_carry_their_codes() {
    let missing = missing_method_reply(Some(Value::from(1)));
    let error = missing.error.expect("error");
    assert_eq!(error.code, INVALID_REQUEST);
    assert_eq!(error.message, "missing method");

    let unknown = method_not_found_reply(Some(Value::from(2)), "session/bogus");
    let error = unknown.error.expect("error");
    assert_eq!(error.code, METHOD_NOT_FOUND);
    assert_eq!(error.message, "method not found: session/bogus");

    let unsupported = unsupported_inbound_reply(None);
    assert_eq!(unsupported.error.expect("error").code, METHOD_NOT_FOUND);
}

#[test]
fn gui_accepts_four_daemon_requests() {
    let update = notification(methods::SESSION_UPDATE, Value::Null);
    assert_eq!(route_gui_inbound(&update), GuiInbound::SessionUpdate);
    let permission = request(Value::from(1), methods::SESSION_REQUEST_PERMISSION, Value::Null);
    assert_eq!(route_gui_inbound(&permission), GuiInbound::RequestPermission);
    let elicit = request(Value::from(1), methods::ELICITATION_CREATE, Value::Null);
    assert_eq!(route_gui_inbound(&elicit), GuiInbound::CreateElicitation);
    let changed = notification(methods::SESSION_LIST_CHANGED, Value::Null);
    assert_eq!(route_gui_inbound(&changed), GuiInbound::SessionListChanged);
    let other = request(Value::from(1), methods::SESSION_NEW, Value::Null);
    assert_eq!(route_gui_inbound(&other), GuiInbound::Unsupported);
}

#[test]
fn prompt_replies_answer_or_retry() {
    let answered = success(Some(Value::from(1)), Value::from("yes"));
    match prompt_reply(&answered) {
        PromptReply::Answered(value) => assert_eq!(value, &Value::from("yes")),
        PromptReply::Retry => panic!("expected an answer"),
    }
    let refused = error_response(Some(Value::from(1)), INTERNAL_ERROR, "no".to_string());
    assert!(matches!(prompt_reply(&refused), PromptReply::Retry));
    let mut empty = success(Some(Value::from(1)), Value::Null);
    empty.result = None;
    assert!(matches!(prompt_reply(&empty), PromptReply::Retry));
}

#[test]
fn session_list_update_carries_the_list() {
    let list = SessionListWire {
        sessions: vec![SessionInfoWire {
            session_id: "s1".into(),
            title: Some("Title".into()),
            work_dirs: vec!["/tmp".into()],
            updated_at: None,
        }],
    };
    let event = SessionListUpdated(list.clone());
    assert_eq!(event.0.sessions.len(), 1);
    assert_eq!(event.0.sessions[0].session_id, "s1");
}

// ---- coalescing ----

#[test]
fn small_deltas_wait_for_the_timer() {
    let mut coalescer = DeltaCoalescer::new();
    let first = coalescer.add_delta("s", false, "Hel", true, "", Duration::from_millis(0));
    match first {
        DeltaDecision::StartTimer(delay) => assert_eq!(delay, Duration::from_millis(50)),
        _ => panic!("expected a timer"),
    }
    let second = coalescer.add_delta("s", false, "lo", false, "", Duration::from_millis(10));
    assert!(matches!(second, DeltaDecision::Wait));
    let out = coalescer.timer_fired();
    assert_eq!(out.len(), 1);
    assert_eq!(text_of(&out[0]), "Hello");
    assert!(out[0].persist);
    assert!(!out[0].thought);
}

#[test]
fn late_delta_flushes_everything_in_order() {
    let mut coalescer = DeltaCoalescer::new();
    coalescer.add_delta("a", false, "one", true, "", Duration::from_millis(0));
    coalescer.add_delta("b", true, "think", false, "gemini", Duration::from_millis(5));
    let decision = coalescer.add_delta("a", false, " two", true, "", Duration::from_millis(60));
    match decision {
        DeltaDecision::Flush(out) => {
            assert_eq!(out.len(), 2);
            assert_eq!(out[0].session_id, "a");
            assert_eq!(text_of(&out[0]), "one two");
            assert_eq!(out[1].session_id, "b");
            assert!(out[1].thought);
            assert_eq!(out[1].agent_id, "gemini");
        }
        _ => panic!("expected a flush"),
    }
    assert!(coalescer.flush().is_empty());
}

#[test]
fn long_delta_flushes_at_once() {
    let mut coalescer = DeltaCoalescer::new();
    let text = "x".repeat(64);
    let decision = coalescer.add_delta("s", false, &text, true, "", Duration::from_millis(0));
    match decision {
        DeltaDecision::Flush(out) => assert_eq!(out[0].text.len(), 64),
        _ => panic!("expected a flush"),
    }
}

#[test]
fn message_and_thought_buffers_are_separate() {
    let mut coalescer = DeltaCoalescer::new();
    coalescer.add_delta("s", false, "say", true, "", Duration::from_millis(0));
    coalescer.add_delta("s", true, "think", true, "", Duration::from_millis(1));
    let out = coalescer.flush();
    assert_eq!(out.len(), 2);
    assert_eq!(text_of(&out[0]), "say");
    assert_eq!(text_of(&out[1]), "think");
}

#[test]
fn empty_buffers_are_not_sent() {
    let mut coalescer = DeltaCoalescer::new();
    coalescer.add_delta("s", false, "", true, "", Duration::from_millis(0));
    assert!(coalescer.flush().is_empty());
}

// ---- generating sessions ----

#[test]
fn generating_changes_are_reported_once() {
    let mut generating = GeneratingSessions::new();
    assert!(generating.set("s1", true));
    assert!(!generating.set("s1", true));
    assert!(generating.is_generating("s1"));
    assert!(!generating.is_generating("s2"));
    assert!(generating.set("s1", false));
    assert!(!generating.set("s1", false));
    assert!(!generating.is_generating("s1"));
}

// ---- models ----

fn info(id: &str) -> AgentModelInfo {
    AgentModelInfo { id: id.into(), name: id.to_uppercase(), description: None }
}

#[test]
fn model_info_round_trips_through_wire() {
    let wire = model_info_wire(
        AgentModelInfo { id: "m".into(), name: "M".into(), description: Some("d".into()) },
        Some("g".into()),
    );
    assert_eq!(wire.group.as_deref(), Some("g"));
    let back = model_info_from_wire(wire);
    assert_eq!(back.id, "m");
    assert_eq!(back.description.as_deref(), Some("d"));
}

#[test]
fn flat_model_list_stays_flat() {
    let wire = model_list_wire(AgentModelList::Flat(vec![info("a"), info("b")]));
    assert!(wire.models.iter().all(|model| model.group.is_none()));
    match model_list_from_wire(wire) {
        AgentModelList::Flat(models) => {
            assert_eq!(models.len(), 2);
            assert_eq!(models[1].id, "b");
        }
        AgentModelList::Grouped(_) => panic!("expected flat"),
    }
}

#[test]
fn grouped_model_list_round_trips() {
    let groups = vec![
        AgentModelGroup { name: "Alpha".into(), models: vec![info("a1")] },
        AgentModelGroup { name: "Beta".into(), models: vec![info("b1"), info("b2")] },
    ];
    let wire = model_list_wire(AgentModelList::Grouped(groups));
    assert_eq!(wire.models.len(), 3);
    assert_eq!(wire.models[2].group.as_deref(), Some("Beta"));
    match model_list_from_wire(wire) {
        AgentModelList::Grouped(groups) => {
            assert_eq!(groups.len(), 2);
            assert_eq!(groups[0].name, "Alpha");
            assert_eq!(groups[1].models.len(), 2);
            assert_eq!(groups[1].models[1].id, "b2");
        }
        AgentModelList::Flat(_) => panic!("expected groups"),
    }
}

#[test]
fn interleaved_wire_groups_gather_by_first_appearance() {
    let wire = ModelListWire {
        models: vec![
            ModelInfoWire { id: "1".into(), name: "1".into(), description: None, group: Some("B".into()) },
            ModelInfoWire { id: "2".into(), name: "2".into(), description: None, group: None },
            ModelInfoWire { id: "3".into(), name: "3".into(), description: None, group: Some("B".into()) },
        ],
    };
    match model_list_from_wire(wire) {
        AgentModelList::Grouped(groups) => {
            assert_eq!(groups.len(), 2);
            assert_eq!(groups[0].name, "B");
            assert_eq!(groups[0].models.len(), 2);
            assert_eq!(groups[0].models[1].id, "3");
            assert_eq!(groups[1].name, "");
        }
        AgentModelList::Flat(_) => panic!("expected groups"),
    }
}

// ---- credentials ----

#[test]
fn username_defaults_to_bearer() {
    assert_eq!(credential_username(None), "Bearer");
    assert_eq!(credential_username(Some(String::new())), "Bearer");
    assert_eq!(credential_username(Some("me".into())), "me");
}

#[test]
fn key_writes_and_missing_key_deletes() {
    match credential_change("https://a".into(), "me".into(), Some("sk-1".into())) {
        CredentialChange::Write { url, username, password } => {
            assert_eq!(url, "https://a");
            assert_eq!(username, "me");
            assert_eq!(password, b"sk-1".to_vec());
        }
        CredentialChange::Delete { .. } => panic!("expected a write"),
    }
    assert!(matches!(
        credential_change("https://a".into(), "me".into(), None),
        CredentialChange::Delete { .. }
    ));
}

#[test]
fn credential_store_reads_back_writes() {
    let mut store = CredentialStore::new();
    store.write("https://a", "me", b"one");
    store.write("https://b", "you", b"two");
    store.write("https://a", "me", b"three");
    let (name, secret) = store.read("https://a").expect("stored");
    assert_eq!(name, "me");
    assert_eq!(secret, b"three".to_vec());
    assert_eq!(store.to_entries().len(), 2);
    store.delete("https://a");
    assert!(store.read("https://a").is_none());
    assert_eq!(store.read("https://b").expect("kept").1, b"two".to_vec());
}

#[test]
fn applied_changes_update_the_store() {
    let mut store = CredentialStore::new();
    store.apply(&credential_change("u".into(), "Bearer".into(), Some("k".into())));
    assert_eq!(store.read("u").expect("stored").1, b"k".to_vec());
    store.apply(&credential_change("u".into(), "Bearer".into(), None));
    assert!(store.read("u").is_none());
}

// ---- clone ----

#[test]
fn repo_name_is_last_segment_without_git() {
    assert_eq!(repo_name_from_url("https://github.com/zed-industries/zed.git"), "zed");
    assert_eq!(repo_name_from_url("git@host:team/project"), "project");
    assert_eq!(repo_name_from_url("plain"), "plain");
    assert_eq!(repo_name_from_url("https://host/repo/"), "");
    assert_eq!(repo_name_from_url(".git"), "");
}

#[test]
fn clone_prompt_names_the_repo() {
    assert_eq!(clone_prompt_title("zed"), "Git Clone: zed");
}

#[test]
fn clone_answers_pick_where_to_open() {
    assert_eq!(clone_open_action(true, 0), CloneOpen::AddToProject);
    assert_eq!(clone_open_action(true, 1), CloneOpen::OpenInNewWindow);
    assert_eq!(clone_open_action(true, 5), CloneOpen::Nothing);
    assert_eq!(clone_open_action(false, 1), CloneOpen::OpenHere);
}

// ---- dirty buffers ----

#[test]
fn dirty_buffers_are_written_and_clean_ones_removed() {
    match snapshot_plan("/tmp/a.rs", true, "text".into()) {
        SnapshotPlan::Write { file_name, snapshot } => {
            assert_eq!(file_name, snapshot_file_name("/tmp/a.rs"));
            assert_eq!(snapshot.abs_path, "/tmp/a.rs");
            assert_eq!(snapshot.text, "text");
        }
        SnapshotPlan::Remove { .. } => panic!("expected a write"),
    }
    match snapshot_plan("/tmp/a.rs", false, "text".into()) {
        SnapshotPlan::Remove { file_name } => assert!(file_name.ends_with(".json")),
        SnapshotPlan::Write { .. } => panic!("expected a removal"),
    }
}

#[test]
fn snapshots_restore_only_into_clean_differing_buffers() {
    assert!(should_restore(false, "old", "new"));
    assert!(!should_restore(false, "same", "same"));
    assert!(!should_restore(true, "old", "new"));
}

// ---- pairing and prompt clock ----

#[test]
fn sockets_pair_by_pid() {
    let mut pairing: GuiPairing<u8> = GuiPairing::new();
    assert!(pairing.accept(Some(1), StreamKind::Stdin, 10).is_none());
    assert!(pairing.accept(Some(2), StreamKind::Stdin, 20).is_none());
    assert!(pairing.accept(Some(1), StreamKind::Stdout, 11).is_none());
    assert!(pairing.accept(Some(2), StreamKind::Stdout, 21).is_none());
    assert_eq!(pairing.accept(Some(2), StreamKind::Stderr, 22), Some((20, 21, 22)));
    assert_eq!(pairing.accept(Some(1), StreamKind::Stderr, 12), Some((10, 11, 12)));
    assert!(pairing.accept(None, StreamKind::Stderr, 32).is_none());
    assert!(pairing.accept(None, StreamKind::Stdin, 30).is_none());
    assert_eq!(pairing.accept(None, StreamKind::Stdout, 31), Some((30, 31, 32)));
}

#[test]
fn prompt_clock_times_out_after_the_limit() {
    let clock = PromptClock::start(DisconnectedPromptWait::Timeout { millis: 100 }, Duration::from_millis(50));
    assert!(!clock.timed_out(Duration::from_millis(120)));
    assert_eq!(clock.remaining(Duration::from_millis(120)), Some(Duration::from_millis(30)));
    assert!(clock.timed_out(Duration::from_millis(150)));
    assert_eq!(clock.remaining(Duration::from_millis(200)), Some(Duration::ZERO));
    let forever = PromptClock::start(DisconnectedPromptWait::Forever, Duration::ZERO);
    assert!(!forever.timed_out(Duration::from_secs(1_000_000)));
    assert_eq!(forever.remaining(Duration::from_secs(5)), None);
}

// ---- external children and the event log ----

fn child(telemetry_id: &str) -> session_protocol::AcpConnectResponse {
    session_protocol::AcpConnectResponse {
        telemetry_id: telemetry_id.into(),
        agent_version: Some("1.0".into()),
        auth_methods_json: Vec::new(),
        load_session: true,
        resume_session: false,
    }
}

#[test]
fn second_connect_reuses_the_child() {
    let mut agents = ExternalAgents::new();
    assert!(matches!(agents.connect_plan("gemini"), ConnectPlan::Spawn));
    agents.connected("gemini", child("gemini-cli"));
    match agents.connect_plan("gemini") {
        ConnectPlan::Reuse(response) => assert_eq!(response.telemetry_id, "gemini-cli"),
        ConnectPlan::Spawn => panic!("expected reuse"),
    }
    assert!(agents.is_connected("gemini"));
    assert!(!agents.is_connected("other-agent"));
}

#[test]
fn missing_child_error_names_the_agent() {
    assert_eq!(
        not_connected_message("other-agent"),
        "external ACP agent `other-agent` is not connected"
    );
}

#[test]
fn persisted_updates_are_logged_with_their_position() {
    let mut log = session_protocol::EventLog::new();
    assert_eq!(log.record_update("{\"a\":1}".into(), true), 1);
    assert_eq!(log.record_update("{\"b\":2}".into(), false), 0);
    assert_eq!(log.record_update("{\"c\":3}".into(), true), 2);
    assert_eq!(log.head().0, 2);
}

#[test]
fn proto_catch_up_maps_fields() {
    let proto_catch_up = SessionCatchUp {
        from_seq: 1,
        to_seq: 2,
        events_json: vec!["{}".into()],
    };
    let catch_up = catch_up_from_proto(&proto_catch_up);
    assert_eq!(catch_up.from_seq, EventSeq(1));
    assert_eq!(catch_up.to_seq, EventSeq(2));
    assert_eq!(catch_up.events_json.len(), 1);
}

#[test]
fn subscribe_answer_keeps_the_window() {
    let mut log = session_protocol::EventLog::new();
    log.append("{\"a\":1}".into());
    log.append("{\"b\":2}".into());
    let proto = catch_up_to_proto(log.catch_up(EventSeq(1)));
    assert_eq!(proto.from_seq, 2);
    assert_eq!(proto.to_seq, 2);
    assert_eq!(proto.events_json, vec!["{\"b\":2}".to_string()]);
}

// ---- session list entries ----

#[test]
fn wire_session_info_parses_its_update_time() {
    let info = session_info_from_wire(SessionInfoWire {
        session_id: "s".into(),
        title: Some("Fix bug".into()),
        work_dirs: vec!["/tmp/app".into()],
        updated_at: Some("2024-01-02T03:04:05+01:00".into()),
    });
    assert_eq!(info.session_id, "s");
    assert_eq!(info.title.as_deref(), Some("Fix bug"));
    assert_eq!(info.work_dirs, Some(vec!["/tmp/app".to_string()]));
    assert_eq!(info.updated_at, Some((1_704_161_045, 0)));
}

#[test]
fn wire_session_info_without_dirs_or_valid_time() {
    let info = session_info_from_wire(SessionInfoWire {
        session_id: "s".into(),
        title: None,
        work_dirs: Vec::new(),
        updated_at: Some("yesterday".into()),
    });
    assert!(info.work_dirs.is_none());
    assert!(info.updated_at.is_none());
}

#[test]
fn agent_session_info_writes_rfc3339() {
    let wire = session_info_wire(AgentSessionInfo {
        session_id: "s".into(),
        title: None,
        work_dirs: None,
        updated_at: Some((1_704_164_645, 0)),
    });
    assert!(wire.work_dirs.is_empty());
    assert_eq!(wire.updated_at.as_deref(), Some("2024-01-02T03:04:05+00:00"));
    let back = session_info_from_wire(wire);
    assert_eq!(back.updated_at, Some((1_704_164_645, 0)));
}

#[test]
fn snapshot_path_is_under_dirty_buffers() {
    let name = snapshot_file_name("/tmp/app/src/main.rs");
    assert_eq!(
        session_protocol::dirty_buffers::snapshot_path("/var/state", "/tmp/app/src/main.rs"),
        format!("/var/state/dirty_buffers/{name}")
    );
    assert_eq!(
        session_protocol::dirty_buffers::snapshot_path("/var/state/", "/tmp/app/src/main.rs"),
        format!("/var/state/dirty_buffers/{name}")
    );
}

#[test]
fn forwarded_credentials_name_url_user_and_key() {
    let request = session_protocol::credentials::set_credentials_request(
        "https://api.example",
        Some("Bearer"),
        Some("sk-1"),
    );
    assert_eq!(request.url, "https://api.example");
    assert_eq!(request.username.as_deref(), Some("Bearer"));
    assert_eq!(request.api_key.as_deref(), Some("sk-1"));
    let removal = session_protocol::credentials::set_credentials_request("u", None, None);
    assert!(removal.username.is_none() && removal.api_key.is_none());
}

#[test]
fn cloud_token_url_prefers_credentials_url() {
    assert_eq!(
        session_protocol::credentials::cloud_credentials_url(
            Some("https://cred".into()),
            "https://server".into()
        ),
        "https://cred"
    );
    assert_eq!(
        session_protocol::credentials::cloud_credentials_url(None, "https://server".into()),
        "https://server"
    );
}

// ---- laws on concrete values ----

#[test]
fn only_nonempty_message_and_thought_chunks_are_deltas() {
    assert_eq!(delta_text("agent_message_chunk", Some("hi")), Some((false, "hi".to_string())));
    assert_eq!(delta_text("agent_thought_chunk", Some("hm")), Some((true, "hm".to_string())));
    assert_eq!(delta_text("agent_message_chunk", Some("")), None);
    assert_eq!(delta_text("agent_message_chunk", None), None);
    assert_eq!(delta_text("tool_call", Some("x")), None);
}

#[test]
fn pushed_updates_move_positions_only_when_logged_and_applied() {
    let mut seqs = session_protocol::session_seqs::SessionSeqs::new();
    seqs.record_pushed("s", 5, true);
    assert_eq!(seqs.last_seq_for("s"), 5);
    seqs.record_pushed("s", 9, false);
    seqs.record_pushed("s", 0, true);
    assert_eq!(seqs.last_seq_for("s"), 5);
    assert_eq!(seqs.global_last_seq(), 5);
    seqs.record_pushed("s", 3, true);
    assert_eq!(seqs.last_seq_for("s"), 5);
}

fn params_for(session_id: &str) -> Value {
    let mut map = serde_json::Map::new();
    map.insert("sessionId".to_string(), Value::from(session_id));
    Value::Object(map)
}

#[test]
fn catch_up_keeps_only_this_sessions_updates() {
    let lines = vec![
        notification(methods::SESSION_UPDATE, params_for("a")),
        notification(methods::SESSION_UPDATE, params_for("b")),
        notification(methods::SESSION_CANCEL, params_for("a")),
    ];
    let kept = session_protocol::catch_up_session_update_params(&lines, "a");
    assert_eq!(kept, vec![&params_for("a")]);
}

#[test]
fn unparsable_lines_get_a_parse_error_without_id() {
    let reply = session_protocol::rpc_dispatch::parse_error_reply("expected value".to_string());
    assert!(reply.id.is_none());
    let error = reply.error.expect("error");
    assert_eq!(error.code, session_protocol::PARSE_ERROR);
    assert_eq!(error.message, "expected value");
}

#[test]
fn prompt_attempts_stop_at_the_deadline_and_retry_until_then() {
    let clock = PromptClock::start(DisconnectedPromptWait::Timeout { millis: 3_000 }, Duration::ZERO);
    match clock.next_attempt(Duration::from_millis(500)) {
        Attempt::Send { timeout } => assert_eq!(timeout, Some(Duration::from_millis(2_500))),
        Attempt::TimedOut => panic!("still in time"),
    }
    assert!(matches!(clock.next_attempt(Duration::from_millis(3_000)), Attempt::TimedOut));
    match clock.after_reply(false, Duration::from_millis(500)) {
        AfterReply::RetryAfter(pause) => assert_eq!(pause, Duration::from_secs(1)),
        AfterReply::Answered => panic!("expected a retry"),
    }
    match clock.after_reply(false, Duration::from_millis(2_800)) {
        AfterReply::RetryAfter(pause) => assert_eq!(pause, Duration::from_millis(200)),
        AfterReply::Answered => panic!("expected a retry"),
    }
    assert!(matches!(clock.after_reply(true, Duration::from_millis(2_800)), AfterReply::Answered));
}

#[test]
fn timed_out_permission_is_denied_once_and_elicitation_goes_on() {
    let options = PermissionOptions::Flat(vec![PermissionOption {
        option_id: "allow-once".into(),
        name: "Allow".into(),
        kind: PermissionOptionKind::AllowOnce,
    }]);
    assert!(matches!(
        permission_after_wait(PromptWait::TimedOut, &options),
        PermissionAnswer::DeniedOnce
    ));
    assert!(matches!(
        permission_after_wait(PromptWait::Answered(RequestPermissionOutcome::Cancelled), &options),
        PermissionAnswer::DeniedOnce
    ));
    match permission_after_wait(
        PromptWait::Answered(RequestPermissionOutcome::Selected { option_id: "allow-once".into() }),
        &options,
    ) {
        PermissionAnswer::Selected(selected) => assert_eq!(selected.kind, PermissionOptionKind::AllowOnce),
        PermissionAnswer::DeniedOnce => panic!("expected the selection"),
    }
    let shortcut = permission_without_asking(true, &options).expect("allow-once");
    assert_eq!(shortcut.option_id, "allow-once");
    assert!(permission_without_asking(false, &options).is_none());
    assert!(matches!(
        elicitation_after_wait::<u8>(PromptWait::TimedOut),
        ElicitationAnswer::ContinueWithoutForm
    ));
    assert!(matches!(elicitation_after_wait(PromptWait::Answered(7u8)), ElicitationAnswer::Answered(7)));
}
