use std::time::Duration;

use session_protocol::daemon_socket_id;
use session_protocol::dirty_buffers::{fnv1a64, snapshot_file_name};
use session_protocol::frame::{
    decode_payload, encode_message, message_len_from_buffer, size_prefixed_frame, FrameError,
    MESSAGE_LEN_SIZE,
};
use session_protocol::host::{
    AgentSessionSettings, DetachedPermissionsSetting, HeartbeatSettings, HostConfig,
    PromptWaitSetting,
};
use session_protocol::local::{stable_daemon_id, LocalConnectionOptions, LocalProject};
use session_protocol::mux::{AttachAction, Delivery, GuiMuxState, PartialTriple, StreamKind};
use session_protocol::prompts::{
    acp_permission_options, authorization_kind_from_meta, authorization_kind_meta_value,
    option_kind_for_id, permit_everything_permission_outcome, retry_poll,
    selected_permission_outcome, AuthorizationKind, OutcomeError, PermissionOption,
    PermissionOptionChoice, PermissionOptionKind, PermissionOptions, RequestPermissionOutcome,
};
use session_protocol::session_seqs::{wire_agent_id, SessionSeqs};
use session_protocol::{
    DetachedPermissions, DisconnectedPromptWait, EnvelopeIds, DAEMON_ID_BODY_LEN,
    NATIVE_AGENT_ID,
};

const ZSTD_MAGIC: [u8; 4] = [0x28, 0xB5, 0x2F, 0xFD];

#[test]
fn session_host_default_asks_and_waits_forever() {
    let config = HostConfig::default();
    assert_eq!(config.detached_permissions, DetachedPermissions::Ask);
    assert_eq!(
        config.disconnected_prompt_wait,
        DisconnectedPromptWait::Forever
    );
    assert!(!config.permit_tool_permissions());
}

#[test]
fn settings_pick_permissions_and_timeout() {
    assert_eq!(HostConfig::from_settings(None), HostConfig::default());
    let timeout_default = HostConfig::from_settings(Some(AgentSessionSettings {
        detached_permissions: Some(DetachedPermissionsSetting::PermitEverything),
        disconnected_prompt_wait: Some(PromptWaitSetting::Timeout),
        disconnected_prompt_timeout_ms: None,
    }));
    assert!(timeout_default.permit_tool_permissions());
    assert_eq!(
        timeout_default.disconnected_prompt_wait,
        DisconnectedPromptWait::Timeout { millis: 300_000 }
    );
    let forever = HostConfig::from_settings(Some(AgentSessionSettings {
        detached_permissions: Some(DetachedPermissionsSetting::Ask),
        disconnected_prompt_wait: Some(PromptWaitSetting::Forever),
        disconnected_prompt_timeout_ms: Some(5),
    }));
    assert_eq!(forever, HostConfig::default());
    let short = HostConfig::from_settings(Some(AgentSessionSettings {
        detached_permissions: None,
        disconnected_prompt_wait: Some(PromptWaitSetting::Timeout),
        disconnected_prompt_timeout_ms: Some(1_500),
    }));
    assert_eq!(
        short.disconnected_prompt_wait,
        DisconnectedPromptWait::Timeout { millis: 1_500 }
    );
}

#[test]
fn heartbeat_zero_means_default() {
    let answer = HeartbeatSettings {
        interval_ms: 0,
        timeout_ms: 4_000,
        max_missed: 0,
    }
    .negotiate();
    assert_eq!(
        answer,
        HeartbeatSettings {
            interval_ms: 15_000,
            timeout_ms: 4_000,
            max_missed: 10,
        }
    );
    assert_eq!(answer.negotiate(), answer);
}

#[test]
fn path_hash_is_stable() {
    assert_eq!(
        fnv1a64(b"/tmp/app/src/main.rs"),
        fnv1a64(b"/tmp/app/src/main.rs")
    );
    assert_ne!(fnv1a64(b"/tmp/a"), fnv1a64(b"/tmp/b"));
}

#[test]
fn fnv1a64_known_values() {
    assert_eq!(fnv1a64(b""), 0xcbf29ce484222325);
    assert_eq!(fnv1a64(b"a"), 0xaf63dc4c8601ec8c);
    assert_eq!(fnv1a64(b"foobar"), 0x85944171f73967e8);
}

#[test]
fn snapshot_file_name_is_hex_hash() {
    let name = snapshot_file_name("/tmp/app/src/main.rs");
    assert_eq!(
        name,
        format!("{:016x}.json", fnv1a64(b"/tmp/app/src/main.rs"))
    );
    assert_eq!(snapshot_file_name(""), "cbf29ce484222325.json");
}

#[test]
fn reexports_protocol_id() {
    let identifier = stable_daemon_id("local", "localhost", "/tmp/app");
    assert_eq!(identifier.len(), DAEMON_ID_BODY_LEN);
}

#[test]
fn daemon_id_matches_protocol_and_ignores_nickname() {
    let options = LocalConnectionOptions {
        project_root: "/tmp/app/".to_string(),
        nickname: Some("work".to_string()),
    };
    assert_eq!(
        options.daemon_id(),
        daemon_socket_id("local", "localhost", "/tmp/app")
    );
    assert_eq!(options.identity_project_root(), "/tmp/app");
}

#[test]
fn identity_root_keeps_short_roots() {
    let root = LocalConnectionOptions::new("/".to_string());
    assert_eq!(root.identity_project_root(), "/");
    assert!(root.nickname.is_none());
    let windows = LocalConnectionOptions::new("C:\\work\\".to_string());
    assert_eq!(windows.identity_project_root(), "C:\\work");
}

#[test]
fn daemon_id_matches_protocol() {
    let project = LocalProject::new("/tmp/app".to_string());
    assert_eq!(
        project.daemon_id(),
        daemon_socket_id("local", "localhost", "/tmp/app")
    );
    assert_eq!(project.project_root, "/tmp/app");
}

fn option(id: &str, name: &str, kind: PermissionOptionKind) -> PermissionOption {
    PermissionOption {
        option_id: id.to_string(),
        name: name.to_string(),
        kind,
    }
}

#[test]
fn flatten_dropdown_sends_allow_and_deny() {
    let allow = option("allow-once", "Allow", PermissionOptionKind::AllowOnce);
    let deny = option("reject-once", "Deny", PermissionOptionKind::RejectOnce);
    let options = PermissionOptions::Dropdown(vec![PermissionOptionChoice {
        allow: allow.clone(),
        deny: deny.clone(),
        sub_patterns: Vec::new(),
    }]);
    let flat = acp_permission_options(&options);
    assert_eq!(flat.len(), 2);
    assert_eq!(flat[0].option_id, allow.option_id);
    assert_eq!(flat[1].option_id, deny.option_id);
}

#[test]
fn cancelled_permission_is_not_an_answer() {
    let options = PermissionOptions::Flat(vec![option(
        "allow-once",
        "Allow",
        PermissionOptionKind::AllowOnce,
    )]);
    assert_eq!(
        selected_permission_outcome(RequestPermissionOutcome::Cancelled, &options),
        Err(OutcomeError::Cancelled)
    );
}

#[test]
fn selected_option_takes_its_kind_or_rejects() {
    let options = PermissionOptions::DropdownWithPatterns {
        choices: vec![
            PermissionOptionChoice {
                allow: option("allow-a", "Allow a", PermissionOptionKind::AllowAlways),
                deny: option("deny-a", "Deny a", PermissionOptionKind::RejectAlways),
                sub_patterns: vec!["a/*".to_string()],
            },
            PermissionOptionChoice {
                allow: option("allow-b", "Allow b", PermissionOptionKind::AllowOnce),
                deny: option("deny-b", "Deny b", PermissionOptionKind::RejectOnce),
                sub_patterns: Vec::new(),
            },
        ],
        patterns: Vec::new(),
    };
    assert_eq!(
        option_kind_for_id(&options, &"deny-a".to_string()),
        Some(PermissionOptionKind::RejectAlways)
    );
    assert_eq!(
        option_kind_for_id(&options, &"allow-b".to_string()),
        Some(PermissionOptionKind::AllowOnce)
    );
    assert_eq!(option_kind_for_id(&options, &"missing".to_string()), None);
    let picked = selected_permission_outcome(
        RequestPermissionOutcome::Selected {
            option_id: "missing".to_string(),
        },
        &options,
    )
    .unwrap();
    assert_eq!(picked.option_id, "missing");
    assert_eq!(picked.kind, PermissionOptionKind::RejectOnce);
    let everything = permit_everything_permission_outcome(&options).unwrap();
    assert_eq!(everything.option_id, "allow-b");
    assert_eq!(everything.kind, PermissionOptionKind::AllowOnce);
    let none = PermissionOptions::Flat(vec![option("no", "No", PermissionOptionKind::RejectOnce)]);
    assert!(permit_everything_permission_outcome(&none).is_none());
}

#[test]
fn authorization_kind_defaults_to_permission_grant() {
    assert_eq!(
        authorization_kind_from_meta(None),
        AuthorizationKind::PermissionGrant
    );
    assert_eq!(
        authorization_kind_from_meta(Some("action_choice")),
        AuthorizationKind::ActionChoice
    );
    assert_eq!(
        authorization_kind_from_meta(Some(authorization_kind_meta_value(
            AuthorizationKind::PermissionGrant
        ))),
        AuthorizationKind::PermissionGrant
    );
}

#[test]
fn retry_poll_is_at_most_a_second() {
    assert_eq!(retry_poll(None), Duration::from_secs(1));
    assert_eq!(
        retry_poll(Some(Duration::from_millis(250))),
        Duration::from_millis(250)
    );
    assert_eq!(retry_poll(Some(Duration::from_secs(9))), Duration::from_secs(1));
    assert!(retry_poll(Some(Duration::ZERO)).is_zero());
}

#[test]
fn message_len_is_little_endian() {
    assert_eq!(message_len_from_buffer(&[0x0b, 0, 0, 0]), 11);
    assert_eq!(message_len_from_buffer(&[1, 2, 3, 4]), 0x0403_0201);
    assert_eq!(MESSAGE_LEN_SIZE, 4);
}

#[test]
fn roundtrip_compresses_and_reads() {
    let original: Vec<u8> = (0u8..200).map(|i| i % 7).collect();
    let written = encode_message(&original).unwrap();
    assert!(
        written[MESSAGE_LEN_SIZE..].starts_with(&ZSTD_MAGIC),
        "payload should be zstd-framed"
    );
    let len = message_len_from_buffer(&written[..MESSAGE_LEN_SIZE]) as usize;
    assert_eq!(len, written.len() - MESSAGE_LEN_SIZE);
    let decoded = decode_payload(&written[MESSAGE_LEN_SIZE..]).unwrap();
    assert_eq!(decoded, original);
}

#[test]
fn reads_uncompressed_legacy_frames() {
    let raw = vec![0x08u8, 0x0b, 0x12, 0x00];
    let framed = size_prefixed_frame(&raw).unwrap();
    assert_eq!(&framed[..MESSAGE_LEN_SIZE], &[4, 0, 0, 0]);
    let len = message_len_from_buffer(&framed[..MESSAGE_LEN_SIZE]) as usize;
    let decoded = decode_payload(&framed[MESSAGE_LEN_SIZE..MESSAGE_LEN_SIZE + len]).unwrap();
    assert_eq!(decoded, raw);
}

#[test]
fn corrupt_zstd_payload_is_an_error() {
    let corrupt = vec![0x28u8, 0xB5, 0x2F, 0xFD, 1, 2, 3];
    assert_eq!(decode_payload(&corrupt), Err(FrameError::Decompress));
}

fn ids(id: u32, responding_to: Option<u32>) -> EnvelopeIds {
    EnvelopeIds { id, responding_to }
}

#[test]
fn first_gui_gets_backlog_and_responses_find_their_gui() {
    let mut mux: GuiMuxState<&str> = GuiMuxState::new();
    assert!(matches!(mux.route_outgoing("early", ids(1, None)), Delivery::Queued));
    assert!(matches!(mux.route_outgoing("later", ids(2, None)), Delivery::Queued));
    let (first, action) = mux.attach();
    assert_eq!(first, 1);
    match action {
        AttachAction::Replay(backlog) => assert_eq!(backlog, vec!["early", "later"]),
        AttachAction::Started => panic!("first GUI must get the backlog"),
    }
    let (second, action) = mux.attach();
    assert_eq!(second, 2);
    assert!(matches!(action, AttachAction::Started));

    let a = mux.incoming(first, ids(5, None));
    let b = mux.incoming(second, ids(5, None));
    assert_ne!(a.id, b.id);
    match mux.route_outgoing("reply-b", ids(77, Some(b.id))) {
        Delivery::ToOne {
            conn,
            responding_to,
            message,
        } => {
            assert_eq!(conn, second);
            assert_eq!(responding_to, 5);
            assert_eq!(message, "reply-b");
        }
        _ => panic!("expected a unicast"),
    }
    match mux.route_outgoing("notice", ids(78, None)) {
        Delivery::ToAll { targets, message } => {
            assert_eq!(targets, vec![first, second]);
            assert_eq!(message, "notice");
        }
        _ => panic!("expected a broadcast"),
    }
    mux.detach(first);
    assert_eq!(mux.connections(), &vec![second]);
    assert_eq!(mux.pending_request_count(), 0);
    assert!(matches!(
        mux.route_outgoing("reply-a", ids(79, Some(a.id))),
        Delivery::ToAll { .. }
    ));
}

#[test]
fn response_for_departed_gui_is_dropped() {
    let mut mux: GuiMuxState<u8> = GuiMuxState::new();
    let (first, _) = mux.attach();
    let (second, _) = mux.attach();
    let a = mux.incoming(first, ids(1, None));
    mux.detach(first);
    // The request entry went with the GUI, so the reply is broadcast to the rest.
    assert!(matches!(mux.route_outgoing(9, ids(2, Some(a.id))), Delivery::ToAll { .. }));
    let c = mux.incoming(second, ids(1, None));
    mux.detach(second);
    assert_eq!(mux.connections().len(), 0);
    assert!(matches!(mux.route_outgoing(3, ids(3, Some(c.id))), Delivery::Queued));
}

#[test]
fn triple_completes_after_three_kinds() {
    let mut triple: PartialTriple<u32> = PartialTriple::new();
    assert_eq!(triple.insert(StreamKind::Stdout, 2), None);
    assert_eq!(triple.insert(StreamKind::Stdin, 1), None);
    assert_eq!(triple.insert(StreamKind::Stdin, 4), None);
    assert_eq!(triple.insert(StreamKind::Stderr, 3), Some((4, 2, 3)));
    assert!(triple.stdin.is_none() && triple.stdout.is_none() && triple.stderr.is_none());
}

#[test]
fn session_positions_only_grow() {
    let mut seqs = SessionSeqs::new();
    assert_eq!(seqs.last_seq_for("a"), 0);
    seqs.record("a", 5);
    seqs.record("b", 3);
    seqs.record("a", 2);
    assert_eq!(seqs.last_seq_for("a"), 5);
    assert_eq!(seqs.last_seq_for("b"), 3);
    assert_eq!(seqs.global_last_seq(), 5);
    seqs.record_global(9);
    seqs.record_global(4);
    assert_eq!(seqs.global_last_seq(), 9);
    assert_eq!(seqs.last_seq_for("c"), 0);
}

#[test]
fn native_agent_is_empty_on_the_wire() {
    assert_eq!(wire_agent_id(NATIVE_AGENT_ID), "");
    assert_eq!(wire_agent_id("gemini"), "gemini");
}
