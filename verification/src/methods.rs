//! ACP method names dispatched on the daemon.

use vstd::prelude::*;

verus! {

pub const INITIALIZE: &'static str = "initialize";

pub const AUTHENTICATE: &'static str = "authenticate";

pub const SESSION_NEW: &'static str = "session/new";

pub const SESSION_LOAD: &'static str = "session/load";

pub const SESSION_PROMPT: &'static str = "session/prompt";

pub const SESSION_CANCEL: &'static str = "session/cancel";

pub const SESSION_RESUME: &'static str = "session/resume";

pub const SESSION_UPDATE: &'static str = "session/update";

pub const SESSION_REQUEST_PERMISSION: &'static str = "session/request_permission";

pub const ELICITATION_CREATE: &'static str = "elicitation/create";

/// Spawn or reuse a daemon-held external ACP child. Not an upstream ACP method.
pub const ACP_CONNECT: &'static str = "zed/acp_connect";

} // verus!

verus! {

/// Daemon -> GUI: the session list changed; params carry the full list.
pub const SESSION_LIST_CHANGED: &'static str = "zed/session_list_changed";

/// GUI -> daemon: store (or, without a key, delete) an API key on the daemon.
pub const SET_CREDENTIALS: &'static str = "zed/set_credentials";

/// GUI -> daemon: the native agent's sessions.
pub const SESSION_LIST: &'static str = "session/list";

/// GUI -> daemon: delete one native-agent session.
pub const SESSION_DELETE: &'static str = "zed/session_delete";

/// GUI -> daemon: delete every native-agent session.
pub const SESSION_DELETE_ALL: &'static str = "zed/session_delete_all";

/// GUI -> daemon: the models a session may use.
pub const LIST_MODELS: &'static str = "zed/list_models";

/// GUI -> daemon: switch a session's model.
pub const SELECT_MODEL: &'static str = "zed/select_model";

/// GUI -> daemon: the model a session uses.
pub const SELECTED_MODEL: &'static str = "zed/selected_model";

/// GUI -> daemon: summarize a thread.
pub const THREAD_SUMMARY: &'static str = "zed/thread_summary";

} // verus!
