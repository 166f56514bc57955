use std::time::Duration;

use serde_json::Value;
use session_protocol::event_log::jsonl_record;
use session_protocol::methods;
use session_protocol::{
    catch_up_session_update_params, daemon_socket_id, error_response, is_native_agent_id,
    notification, request, success, CatchUpResponse, CoalesceConfig, DisconnectedPromptPolicy,
    DetachedPermissions, DisconnectedPromptWait, EnvelopeIds, EventLog, EventSeq, GuiIdMap,
    JsonRpcLine, JsonRpcMessage, OutgoingRoute, DAEMON_ID_BODY_LEN, DEFAULT_PROMPT_TIMEOUT_MS,
    DETACHED_WORK_ADVICE, METHOD_NOT_FOUND, NATIVE_AGENT_ID,
};

fn json(text: &str) -> Value {
    serde_json::from_str(text).unwrap()
}

/// The compact JSON line of a message, as serde writes it.
fn line_of(message: &JsonRpcMessage) -> String {
    let mut object = serde_json::Map::new();
    object.insert("jsonrpc".to_string(), Value::from(message.jsonrpc.clone()));
    if let Some(id) = &message.id {
        object.insert("id".to_string(), id.clone());
    }
    if let Some(method) = &message.method {
        object.insert("method".to_string(), Value::from(method.clone()));
    }
    if let Some(params) = &message.params {
        object.insert("params".to_string(), params.clone());
    }
    if let Some(result) = &message.result {
        object.insert("result".to_string(), result.clone());
    }
    serde_json::to_string(&Value::Object(object)).unwrap()
}

#[test]
fn orders_monotonically() {
    let first = EventSeq::zero().next();
    let second = first.next();
    assert!(first < second);
    assert_eq!(first.0, 1);
    assert_eq!(second.0, 2);
}

#[test]
fn saturates_instead_of_wrapping() {
    let max = EventSeq(u64::MAX);
    assert_eq!(max.next(), max);
}

#[test]
fn saturating_add_clamps_and_displays_decimal() {
    assert_eq!(EventSeq(5).saturating_add(7), EventSeq(12));
    assert_eq!(EventSeq(u64::MAX - 1).saturating_add(9), EventSeq(u64::MAX));
    assert_eq!(EventSeq(1203).to_string(), "1203");
    assert_eq!(EventSeq(0).to_string(), "0");
}

#[test]
fn body_length_is_stable() {
    let identifier = daemon_socket_id("ssh", "example.com", "/home/user/proj");
    assert_eq!(identifier.len(), DAEMON_ID_BODY_LEN);
    assert!(identifier.starts_with('s'));
    assert!(identifier[1..]
        .chars()
        .all(|character| character.is_ascii_hexdigit()));
}

#[test]
fn same_inputs_are_stable() {
    let left = daemon_socket_id("ssh", "host", "/tmp/app");
    let right = daemon_socket_id("ssh", "host", "/tmp/app");
    assert_eq!(left, right);
}

#[test]
fn trailing_slash_does_not_change_id() {
    let without = daemon_socket_id("ssh", "host", "/tmp/app");
    let with = daemon_socket_id("ssh", "host", "/tmp/app/");
    assert_eq!(without, with);
}

#[test]
fn different_roots_differ() {
    let one = daemon_socket_id("ssh", "host", "/tmp/app");
    let two = daemon_socket_id("ssh", "host", "/tmp/other");
    assert_ne!(one, two);
}

#[test]
fn transport_is_part_of_the_key() {
    let ssh = daemon_socket_id("ssh", "localhost", "/tmp/app");
    let local = daemon_socket_id("local", "localhost", "/tmp/app");
    assert_ne!(ssh, local);
}

#[test]
fn concatenation_is_not_ambiguous() {
    let left = daemon_socket_id("ab", "c", "root");
    let right = daemon_socket_id("a", "bc", "root");
    assert_ne!(left, right);
}

#[test]
fn daemon_id_is_fnv1a_of_parts_with_separators() {
    // FNV-1a 64 of "ssh" 0xff "host" 0xff "/tmp/app" 0xff, low 48 bits.
    let mut hash: u64 = 0xcbf29ce484222325;
    for part in ["ssh", "host", "/tmp/app"] {
        for byte in part.bytes() {
            hash ^= u64::from(byte);
            hash = hash.wrapping_mul(0x100000001b3);
        }
        hash ^= 0xff;
        hash = hash.wrapping_mul(0x100000001b3);
    }
    let expected = format!("s{:012x}", hash & 0x0000_ffff_ffff_ffff);
    assert_eq!(daemon_socket_id("ssh", "host", "/tmp/app"), expected);
    assert_eq!(daemon_socket_id("ssh", "host", "/tmp/app\\\\//"), expected);
}

#[test]
fn short_and_separator_only_roots_are_kept_apart() {
    // A root of one character is used as it is; a longer root made only of
    // separators trims to nothing.
    assert_ne!(
        daemon_socket_id("local", "localhost", "/"),
        daemon_socket_id("local", "localhost", "//")
    );
    assert_eq!(
        daemon_socket_id("local", "localhost", "//"),
        daemon_socket_id("local", "localhost", "")
    );
}

#[test]
fn empty_catch_up_from_zero() {
    let log = EventLog::new();
    let catch_up = log.catch_up(EventSeq::zero());
    assert!(catch_up.is_empty());
    assert_eq!(catch_up.to_seq, EventSeq::zero());
}

#[test]
fn catch_up_skips_seen_events() {
    let mut log = EventLog::new();
    log.append("one".to_string());
    log.append("two".to_string());
    log.append("three".to_string());
    let catch_up = log.catch_up(EventSeq(1));
    assert_eq!(catch_up.from_seq, EventSeq(2));
    assert_eq!(catch_up.to_seq, EventSeq(3));
    assert_eq!(
        catch_up.events_json,
        vec!["two".to_string(), "three".to_string()]
    );
}

#[test]
fn persist_then_catch_up_from_zero() {
    let mut log = EventLog::new();
    let first = log.append(r#"{"jsonrpc":"2.0","method":"session/update"}"#.to_string());
    assert_eq!(first, EventSeq(1));
    let catch_up = log.catch_up(EventSeq::zero());
    assert_eq!(catch_up.events_json.len(), 1);
    assert_eq!(catch_up.to_seq, EventSeq(1));
}

fn chunk_update(session: &str, text: &str) -> String {
    let params = json(&format!(
        r#"{{"sessionId":"{session}","update":{{"sessionUpdate":"agent_message_chunk","content":{{"type":"text","text":"{text}"}}}}}}"#
    ));
    line_of(&notification(methods::SESSION_UPDATE, params))
}

#[test]
fn disconnect_does_not_drop_log_and_reattach_is_delta() {
    let mut log = EventLog::new();
    let first = chunk_update("thread-a", "before drop");
    log.append(first);

    // GUI disconnect: no subscriber. The turn continues appending.
    let second = chunk_update("thread-a", "after drop");
    log.append(second.clone());

    let seen_before_drop = EventSeq(1);
    let catch_up = log.catch_up(seen_before_drop);
    assert_eq!(catch_up.from_seq, EventSeq(2));
    assert_eq!(catch_up.to_seq, EventSeq(2));
    assert_eq!(catch_up.events_json, vec![second]);

    let already_caught_up = log.catch_up(catch_up.to_seq);
    assert!(already_caught_up.is_empty());
    assert_eq!(already_caught_up.to_seq, EventSeq(2));
}

#[test]
fn jsonl_roundtrip_survives_process_bounce() {
    let mut snapshot = String::new();
    snapshot.push_str(&jsonl_record(r#"{"n":1}"#));
    snapshot.push_str(&jsonl_record(r#"{"n":2}"#));
    let loaded = EventLog::from_jsonl(&snapshot);
    assert_eq!(loaded.head(), EventSeq(2));
    let catch_up = loaded.catch_up(EventSeq(1));
    assert_eq!(catch_up.events_json, vec![r#"{"n":2}"#.to_string()]);
}

#[test]
fn jsonl_lines_skip_blanks_and_strip_crlf() {
    let loaded = EventLog::from_jsonl("a\r\n\n\nb\nc\r");
    let all = loaded.catch_up(EventSeq(0));
    assert_eq!(all.events_json, vec!["a".to_string(), "b".to_string(), "c\r".to_string()]);
    assert!(EventLog::from_jsonl("").is_empty());
    assert!(EventLog::from_jsonl("\n\r\n").is_empty());
    assert_eq!(jsonl_record("x"), "x\n");
}

#[test]
fn catch_up_past_head_is_empty_at_head() {
    let mut log = EventLog::new();
    log.append("one".to_string());
    let ahead = log.catch_up(EventSeq(9));
    assert!(ahead.is_empty());
    assert_eq!(ahead.from_seq, EventSeq(1));
    assert_eq!(ahead.to_seq, EventSeq(1));
}

#[test]
fn empty_catch_up_has_no_events() {
    let head = EventSeq(7);
    let catch_up = CatchUpResponse::empty(head);
    assert_eq!(catch_up.from_seq, head);
    assert_eq!(catch_up.to_seq, head);
    assert!(catch_up.is_empty());
}

#[test]
fn json_rpc_line_preserves_payload() {
    let line = JsonRpcLine::new(r#"{"jsonrpc":"2.0","id":1}"#.to_string());
    assert!(line.as_str().contains("jsonrpc"));
}

#[test]
fn flushes_on_time_or_size() {
    let config = CoalesceConfig::slow_link();
    assert!(!config.should_flush(Duration::from_millis(10), 8));
    assert!(config.should_flush(Duration::from_millis(50), 8));
    assert!(config.should_flush(Duration::from_millis(1), 64));
    assert!(!config.should_flush(Duration::from_millis(500), 0));
}

#[test]
fn default_coalescing_is_the_slow_link() {
    assert_eq!(CoalesceConfig::default(), CoalesceConfig::slow_link());
    assert_eq!(CoalesceConfig::slow_link().max_interval, Duration::from_millis(50));
    assert_eq!(CoalesceConfig::slow_link().max_characters, 64);
}

#[test]
fn permission_default_asks_and_waits_forever() {
    let policy = DisconnectedPromptPolicy::default();
    assert_eq!(policy.permissions, DetachedPermissions::Ask);
    assert_eq!(policy.wait, DisconnectedPromptWait::Forever);
    assert!(policy.wait.duration().is_none());
    assert!(!policy.permit_tool_permissions());
}

#[test]
fn permit_everything_permits_tools() {
    let policy = DisconnectedPromptPolicy {
        permissions: DetachedPermissions::PermitEverything,
        wait: DisconnectedPromptWait::default(),
    };
    assert!(policy.permit_tool_permissions());
    assert_eq!(DetachedPermissions::default(), DetachedPermissions::Ask);
}

#[test]
fn timeout_has_a_duration() {
    let wait = DisconnectedPromptWait::Timeout {
        millis: DEFAULT_PROMPT_TIMEOUT_MS,
    };
    assert_eq!(
        wait.duration(),
        Some(Duration::from_millis(DEFAULT_PROMPT_TIMEOUT_MS))
    );
}

#[test]
fn advice_mentions_permit_everything_and_tool_permissions() {
    assert!(DETACHED_WORK_ADVICE.contains("permit_everything"));
    assert!(DETACHED_WORK_ADVICE.contains("tool_permissions"));
}

#[test]
fn empty_and_zed_agent_are_native() {
    assert!(is_native_agent_id(""));
    assert!(is_native_agent_id(NATIVE_AGENT_ID));
    assert!(!is_native_agent_id("gemini"));
}

#[test]
fn request_roundtrip() {
    let message = request(Value::from(1), methods::SESSION_NEW, json(r#"{"cwd": "/"}"#));
    assert!(message.is_request());
    assert_eq!(message.method_name(), Some(methods::SESSION_NEW));
    assert_eq!(message.id, Some(Value::from(1)));
    assert_eq!(message.jsonrpc, "2.0");
}

#[test]
fn notification_has_no_id() {
    let message = notification(methods::SESSION_CANCEL, json(r#"{"sessionId": "s"}"#));
    assert!(message.is_notification());
    assert!(!message.is_request());
    assert!(!message.is_response());
}

#[test]
fn success_result_deserializes() {
    let message = success(Some(Value::from(2)), json(r#"{"sessionId": "abc"}"#));
    assert!(message.is_response());
    let value = message.result_value().ok().unwrap();
    assert_eq!(value["sessionId"], "abc");
}

#[test]
fn error_response_is_json() {
    let message = error_response(Some(Value::from(3)), METHOD_NOT_FOUND, "nope".to_string());
    assert!(message.error.is_some());
    assert!(message.is_response());
    assert!(message.result_value().is_err());
    assert_eq!(message.error.as_ref().unwrap().code, -32601);
    assert_eq!(message.error.as_ref().unwrap().message, "nope");
}

#[test]
fn response_without_result_or_error_is_missing_a_result() {
    let mut message = success(None, Value::Null);
    message.result = None;
    assert!(!message.is_response());
    assert!(matches!(
        message.result_value(),
        Err(session_protocol::jsonrpc::ResultError::MissingResult)
    ));
}

#[test]
fn session_update_notification_roundtrip() {
    let message = notification(
        methods::SESSION_UPDATE,
        json(r#"{"sessionId":"abc","update":{"sessionUpdate":"agent_message_chunk","content":{"type":"text","text":"hi"}}}"#),
    );
    assert!(message.is_notification());
    assert_eq!(message.method_name(), Some(methods::SESSION_UPDATE));
    let params = message.params.unwrap();
    assert_eq!(params["sessionId"], "abc");
    assert_eq!(params["update"]["sessionUpdate"], "agent_message_chunk");
}

#[test]
fn permission_and_elicitation_method_names_match_acp() {
    assert_eq!(
        methods::SESSION_REQUEST_PERMISSION,
        "session/request_permission"
    );
    assert_eq!(methods::ELICITATION_CREATE, "elicitation/create");
    assert_eq!(methods::ACP_CONNECT, "zed/acp_connect");
    assert_eq!(methods::SESSION_RESUME, "session/resume");
}

#[test]
fn catch_up_filters_other_sessions() {
    let mine = notification(
        methods::SESSION_UPDATE,
        json(r#"{"sessionId":"keep","update":{"sessionUpdate":"agent_message_chunk","content":{"type":"text","text":"hello"}}}"#),
    );
    let other = notification(
        methods::SESSION_UPDATE,
        json(r#"{"sessionId":"other","update":{"sessionUpdate":"agent_message_chunk","content":{"type":"text","text":"nope"}}}"#),
    );
    let cancel = notification(methods::SESSION_CANCEL, json(r#"{"sessionId":"keep"}"#));
    let messages = vec![mine, other, cancel];
    let params = catch_up_session_update_params(&messages, "keep");
    assert_eq!(params.len(), 1);
    assert_eq!(params[0]["sessionId"], "keep");
    assert_eq!(params[0]["update"]["content"]["text"], "hello");
}

fn envelope_request(id: u32) -> EnvelopeIds {
    EnvelopeIds {
        id,
        responding_to: None,
    }
}

fn envelope_response(id: u32, responding_to: u32) -> EnvelopeIds {
    EnvelopeIds {
        id,
        responding_to: Some(responding_to),
    }
}

#[test]
fn two_guis_with_the_same_request_id_are_unicast_apart() {
    let mut map = GuiIdMap::new();
    let first = map.remap_incoming(1, envelope_request(1));
    let second = map.remap_incoming(2, envelope_request(1));
    assert_ne!(first.id, second.id);

    match map.route_outgoing(envelope_response(10, first.id)) {
        OutgoingRoute::Unicast {
            conn,
            responding_to,
        } => {
            assert_eq!(conn, 1);
            assert_eq!(responding_to, 1);
        }
        other => panic!("expected unicast, got {other:?}"),
    }
    match map.route_outgoing(envelope_response(11, second.id)) {
        OutgoingRoute::Unicast {
            conn,
            responding_to,
        } => {
            assert_eq!(conn, 2);
            assert_eq!(responding_to, 1);
        }
        other => panic!("expected unicast, got {other:?}"),
    }
    assert_eq!(map.pending_request_count(), 0);
}

#[test]
fn server_initiated_messages_broadcast() {
    let mut map = GuiIdMap::new();
    assert_eq!(
        map.route_outgoing(envelope_request(42)),
        OutgoingRoute::Broadcast
    );
}

#[test]
fn gui_response_to_server_keeps_responding_to() {
    let mut map = GuiIdMap::new();
    let remapped = map.remap_incoming(3, envelope_response(9, 42));
    assert_eq!(remapped.responding_to, Some(42));
    assert_ne!(remapped.id, 9);
    assert_eq!(map.pending_request_count(), 0);
}

#[test]
fn drop_connection_forgets_pending_requests() {
    let mut map = GuiIdMap::new();
    map.remap_incoming(1, envelope_request(1));
    map.remap_incoming(2, envelope_request(1));
    map.drop_connection(1);
    assert_eq!(map.pending_request_count(), 1);
}

#[test]
fn unknown_response_target_broadcasts_and_ids_count_up() {
    let mut map = GuiIdMap::new();
    assert_eq!(map.remap_incoming(5, envelope_request(7)).id, 1);
    assert_eq!(map.remap_incoming(5, envelope_request(8)).id, 2);
    assert_eq!(
        map.route_outgoing(envelope_response(1, 99)),
        OutgoingRoute::Broadcast
    );
    assert_eq!(map.pending_request_count(), 2);
    map.drop_connection(5);
    assert_eq!(map.pending_request_count(), 0);
}
