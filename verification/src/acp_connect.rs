//! Spawn or reuse an external ACP child on the daemon (`zed/acp_connect`).

use std::collections::HashMap;

use serde_json::Value;

use vstd::prelude::*;

verus! {

/// The native Zed Agent on the wire. An empty `SessionAgentRpc.agent_id`
/// also means native.
pub const NATIVE_AGENT_ID: &'static str = "Zed Agent";

/// True when `SessionAgentRpc.agent_id` addresses the native agent rather
/// than an ACP child.
pub fn is_native_agent_id(agent_id: &str) -> (r: bool)
    ensures
        r == (agent_id@.len() == 0 || agent_id@ == NATIVE_AGENT_ID@),
{
    if agent_id.is_empty() {
        return true;
    }
    let given = agent_id.to_owned();
    let native = String::from_str(NATIVE_AGENT_ID);
    given == native
}

/// GUI -> daemon: run this command as a child on the host (no SSH stdio wrap).
#[derive(Clone, Debug)]
pub struct AcpConnectRequest {
    pub path: String,
    pub args: Vec<String>,
    pub env: HashMap<String, String>,
    pub default_mode: Option<String>,
    pub default_config_options: HashMap<String, Value>,
}

/// Daemon -> GUI: identity of a child that now lives on the host.
#[derive(Clone, Debug)]
pub struct AcpConnectResponse {
    pub telemetry_id: String,
    pub agent_version: Option<String>,
    pub auth_methods_json: Vec<Value>,
    pub load_session: bool,
    pub resume_session: bool,
}

/// One native-agent session as the daemon lists it.
#[derive(Clone, Debug)]
pub struct SessionInfoWire {
    pub session_id: String,
    pub title: Option<String>,
    pub work_dirs: Vec<String>,
    /// RFC 3339 time of the last update.
    pub updated_at: Option<String>,
}

/// The daemon's session list (`session/list`, `zed/session_list_changed`).
#[derive(Clone, Debug)]
pub struct SessionListWire {
    pub sessions: Vec<SessionInfoWire>,
}

/// GUI -> daemon: the session a model request is about.
#[derive(Clone, Debug)]
pub struct SessionModelRequest {
    pub session_id: String,
    /// The model to select, for `zed/select_model`.
    pub model_id: Option<String>,
}

/// GUI -> daemon: the session to delete.
#[derive(Clone, Debug)]
pub struct DeleteSessionRequest {
    pub session_id: String,
}

/// GUI -> daemon: the thread to summarize.
#[derive(Clone, Debug)]
pub struct ThreadSummaryRequest {
    pub session_id: String,
}

/// GUI -> daemon: an API key to store, or to delete when `api_key` is none.
#[derive(Clone, Debug)]
pub struct SetCredentialsRequest {
    pub url: String,
    pub username: Option<String>,
    pub api_key: Option<String>,
}

} // verus!
