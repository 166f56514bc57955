//! Protocol core of the always-on session host: event sequence numbers and
//! the append-only event log, daemon socket identifiers, token-delta
//! coalescing, prompt policy, Envelope id remapping for several GUIs,
//! JSON-RPC message shapes and the length-prefixed (optionally zstd-framed)
//! remote stream.

use vstd::prelude::*;

pub mod event_seq;
pub mod text;
pub mod daemon_id;
pub mod acp_tunnel;
pub mod event_log;
pub mod time;
pub mod coalesce;
pub mod permission;
pub mod gui_ids;
pub mod methods;
pub mod jsonrpc;
pub mod acp_connect;
pub mod frame;
pub mod local;
pub mod host;
pub mod dirty_buffers;
pub mod prompts;
pub mod session_seqs;
pub mod mux;
pub mod rpc_dispatch;
pub mod coalescer;
pub mod generating;
pub mod models;
pub mod credentials;
pub mod clone_plan;
pub mod text_map;
pub mod external;
pub mod session_info;

pub use acp_connect::{is_native_agent_id, AcpConnectRequest, AcpConnectResponse, NATIVE_AGENT_ID};
pub use acp_tunnel::{CatchUpResponse, JsonRpcLine, SubscribeRequest};
pub use coalesce::CoalesceConfig;
pub use daemon_id::{daemon_socket_id, DAEMON_ID_BODY_LEN};
pub use event_log::EventLog;
pub use event_seq::EventSeq;
pub use gui_ids::{EnvelopeIds, GuiIdMap, OutgoingRoute};
pub use jsonrpc::{
    catch_up_session_update_params, error_response, notification, request, success, JsonRpcError,
    JsonRpcMessage, INTERNAL_ERROR, INVALID_PARAMS, INVALID_REQUEST, JSONRPC_VERSION, METHOD_NOT_FOUND,
    PARSE_ERROR,
};
pub use permission::{
    DetachedPermissions, DisconnectedPromptPolicy, DisconnectedPromptWait, AUTHORIZATION_KIND_META,
    DEFAULT_PROMPT_TIMEOUT_MS, DETACHED_WORK_ADVICE,
};

verus! {

/// Hook that production binaries call once at start-up. It has nothing to
/// set up yet.
pub fn init() {
}

} // verus!
