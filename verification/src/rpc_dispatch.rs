//! Where a tunneled JSON-RPC message is handled, and the replies that do not
//! depend on the handler's work: the daemon's dispatch of GUI requests (to
//! the native agent or to an external ACP child), the GUI's dispatch of
//! daemon requests, and how a handler's outcome becomes a reply.

use serde_json::Value;

use vstd::prelude::*;

use crate::acp_connect::{is_native_agent_id, SessionListWire, NATIVE_AGENT_ID};
use crate::jsonrpc::{
    error_response, method_of, success, JsonRpcMessage, ResultError, INTERNAL_ERROR, INVALID_PARAMS,
    INVALID_REQUEST, METHOD_NOT_FOUND, PARSE_ERROR,
};
use crate::methods;

verus! {

/// The ACP methods the daemon dispatches by name.
#[derive(Clone, Copy, Debug, PartialEq, Eq, Structural)]
pub enum RpcMethod {
    Initialize,
    Authenticate,
    SessionNew,
    SessionLoad,
    SessionResume,
    SessionPrompt,
    SessionCancel,
    AcpConnect,
    SetCredentials,
    SessionList,
    SessionDelete,
    SessionDeleteAll,
    ListModels,
    SelectModel,
    SelectedModel,
    /// Any other name.
    Other,
}

/// The method a name stands for.
pub open spec fn method_named(name: Seq<char>) -> RpcMethod {
    if name == methods::INITIALIZE@ {
        RpcMethod::Initialize
    } else if name == methods::AUTHENTICATE@ {
        RpcMethod::Authenticate
    } else if name == methods::SESSION_NEW@ {
        RpcMethod::SessionNew
    } else if name == methods::SESSION_LOAD@ {
        RpcMethod::SessionLoad
    } else if name == methods::SESSION_RESUME@ {
        RpcMethod::SessionResume
    } else if name == methods::SESSION_PROMPT@ {
        RpcMethod::SessionPrompt
    } else if name == methods::SESSION_CANCEL@ {
        RpcMethod::SessionCancel
    } else if name == methods::ACP_CONNECT@ {
        RpcMethod::AcpConnect
    } else if name == methods::SET_CREDENTIALS@ {
        RpcMethod::SetCredentials
    } else if name == methods::SESSION_LIST@ {
        RpcMethod::SessionList
    } else if name == methods::SESSION_DELETE@ {
        RpcMethod::SessionDelete
    } else if name == methods::SESSION_DELETE_ALL@ {
        RpcMethod::SessionDeleteAll
    } else if name == methods::LIST_MODELS@ {
        RpcMethod::ListModels
    } else if name == methods::SELECT_MODEL@ {
        RpcMethod::SelectModel
    } else if name == methods::SELECTED_MODEL@ {
        RpcMethod::SelectedModel
    } else {
        RpcMethod::Other
    }
}

fn same_text(a: &str, b: &str) -> (r: bool)
    ensures
        r == (a@ == b@),
{
    a.to_owned() == b.to_owned()
}

/// The method a name stands for.
pub fn rpc_method(name: &str) -> (m: RpcMethod)
    ensures
        m == method_named(name@),
{
    if same_text(name, methods::INITIALIZE) {
        RpcMethod::Initialize
    } else if same_text(name, methods::AUTHENTICATE) {
        RpcMethod::Authenticate
    } else if same_text(name, methods::SESSION_NEW) {
        RpcMethod::SessionNew
    } else if same_text(name, methods::SESSION_LOAD) {
        RpcMethod::SessionLoad
    } else if same_text(name, methods::SESSION_RESUME) {
        RpcMethod::SessionResume
    } else if same_text(name, methods::SESSION_PROMPT) {
        RpcMethod::SessionPrompt
    } else if same_text(name, methods::SESSION_CANCEL) {
        RpcMethod::SessionCancel
    } else if same_text(name, methods::ACP_CONNECT) {
        RpcMethod::AcpConnect
    } else if same_text(name, methods::SET_CREDENTIALS) {
        RpcMethod::SetCredentials
    } else if same_text(name, methods::SESSION_LIST) {
        RpcMethod::SessionList
    } else if same_text(name, methods::SESSION_DELETE) {
        RpcMethod::SessionDelete
    } else if same_text(name, methods::SESSION_DELETE_ALL) {
        RpcMethod::SessionDeleteAll
    } else if same_text(name, methods::LIST_MODELS) {
        RpcMethod::ListModels
    } else if same_text(name, methods::SELECT_MODEL) {
        RpcMethod::SelectModel
    } else if same_text(name, methods::SELECTED_MODEL) {
        RpcMethod::SelectedModel
    } else {
        RpcMethod::Other
    }
}

/// Where the daemon sends a GUI's JSON-RPC message.
#[derive(Clone, Copy, Debug, PartialEq, Eq, Structural)]
pub enum HostRoute {
    /// `zed/acp_connect`, or any message for a non-native agent: the
    /// external ACP child handles it.
    External,
    /// A response from the GUI: acknowledged with an empty result.
    AcknowledgeResponse,
    /// Neither a method nor a response: `INVALID_REQUEST`.
    MissingMethod,
    /// A native-agent method.
    Native(RpcMethod),
}

pub open spec fn host_route(message: JsonRpcMessage, agent_id: Seq<char>) -> HostRoute {
    if method_of(message) == Some(methods::ACP_CONNECT@) || !(agent_id.len() == 0 || agent_id
        == NATIVE_AGENT_ID@) {
        HostRoute::External
    } else {
        match method_of(message) {
            Some(name) => HostRoute::Native(method_named(name)),
            None => if message.method is None && (message.result is Some || message.error is Some) {
                HostRoute::AcknowledgeResponse
            } else {
                HostRoute::MissingMethod
            },
        }
    }
}

/// Where the daemon sends a parsed message that arrived for agent `agent_id`.
pub fn route_host_rpc(message: &JsonRpcMessage, agent_id: &str) -> (r: HostRoute)
    ensures
        r == host_route(*message, agent_id@),
{
    let is_connect = match message.method_name() {
        Some(name) => same_text(name, methods::ACP_CONNECT),
        None => false,
    };
    if is_connect || !is_native_agent_id(agent_id) {
        return HostRoute::External;
    }
    match message.method_name() {
        Some(name) => HostRoute::Native(rpc_method(name)),
        None => if message.is_response() {
            HostRoute::AcknowledgeResponse
        } else {
            HostRoute::MissingMethod
        },
    }
}

/// Where an external ACP child's share of the traffic goes.
#[derive(Clone, Copy, Debug, PartialEq, Eq, Structural)]
pub enum ExternalRoute {
    /// No method: `INVALID_REQUEST`.
    MissingMethod,
    /// One of the methods a child serves.
    Method(RpcMethod),
    /// A method a child does not serve: `METHOD_NOT_FOUND`.
    NotFound,
}

/// The methods an external ACP child serves.
pub open spec fn served_by_child(m: RpcMethod) -> bool {
    m == RpcMethod::AcpConnect || m == RpcMethod::Authenticate || m == RpcMethod::SessionNew || m
        == RpcMethod::SessionLoad || m == RpcMethod::SessionResume || m == RpcMethod::SessionPrompt
        || m == RpcMethod::SessionCancel
}

pub open spec fn external_route(message: JsonRpcMessage) -> ExternalRoute {
    match method_of(message) {
        None => ExternalRoute::MissingMethod,
        Some(name) => {
            let m = method_named(name);
            if served_by_child(m) {
                ExternalRoute::Method(m)
            } else {
                ExternalRoute::NotFound
            }
        },
    }
}

/// Where a message for an external ACP child goes: connect, authenticate,
/// session new/load/resume/prompt/cancel are served; anything else is not.
pub fn route_external_rpc(message: &JsonRpcMessage) -> (r: ExternalRoute)
    ensures
        r == external_route(*message),
{
    match message.method_name() {
        None => ExternalRoute::MissingMethod,
        Some(name) => {
            let m = rpc_method(name);
            match m {
                RpcMethod::AcpConnect
                | RpcMethod::Authenticate
                | RpcMethod::SessionNew
                | RpcMethod::SessionLoad
                | RpcMethod::SessionResume
                | RpcMethod::SessionPrompt
                | RpcMethod::SessionCancel => ExternalRoute::Method(m),
                _ => ExternalRoute::NotFound,
            }
        },
    }
}

/// An external ACP child serves the ACP session methods and `zed/acp_connect`
/// whatever the dispatch code: a message naming one of them is routed to that
/// method (never "method not found"), while `initialize` and the daemon's
/// own session-list, model and credential methods are not served by a child.
pub proof fn lemma_child_serves_acp_methods(message: JsonRpcMessage)
    ensures
        method_of(message) == Some("zed/acp_connect"@) ==> external_route(message)
            == ExternalRoute::Method(RpcMethod::AcpConnect),
        method_of(message) == Some("authenticate"@) ==> external_route(message)
            == ExternalRoute::Method(RpcMethod::Authenticate),
        method_of(message) == Some("session/new"@) ==> external_route(message)
            == ExternalRoute::Method(RpcMethod::SessionNew),
        method_of(message) == Some("session/load"@) ==> external_route(message)
            == ExternalRoute::Method(RpcMethod::SessionLoad),
        method_of(message) == Some("session/resume"@) ==> external_route(message)
            == ExternalRoute::Method(RpcMethod::SessionResume),
        method_of(message) == Some("session/prompt"@) ==> external_route(message)
            == ExternalRoute::Method(RpcMethod::SessionPrompt),
        method_of(message) == Some("session/cancel"@) ==> external_route(message)
            == ExternalRoute::Method(RpcMethod::SessionCancel),
        method_of(message) == Some("initialize"@) ==> external_route(message) == ExternalRoute::NotFound,
        method_of(message) is None ==> external_route(message) == ExternalRoute::MissingMethod,
{
    lemma_acp_method_names_differ();
}

/// The ACP method names differ from each other.
proof fn lemma_acp_method_names_differ()
    ensures
        methods::INITIALIZE@ == "initialize"@,
        methods::AUTHENTICATE@ == "authenticate"@,
        methods::SESSION_NEW@ == "session/new"@,
        methods::SESSION_LOAD@ == "session/load"@,
        methods::SESSION_RESUME@ == "session/resume"@,
        methods::SESSION_PROMPT@ == "session/prompt"@,
        methods::SESSION_CANCEL@ == "session/cancel"@,
        methods::ACP_CONNECT@ == "zed/acp_connect"@,
        "authenticate"@ != "initialize"@,
        "session/new"@ != "initialize"@,
        "session/new"@ != "authenticate"@,
        "session/load"@ != "initialize"@,
        "session/load"@ != "authenticate"@,
        "session/load"@ != "session/new"@,
        "session/resume"@ != "initialize"@,
        "session/resume"@ != "authenticate"@,
        "session/resume"@ != "session/new"@,
        "session/resume"@ != "session/load"@,
        "session/prompt"@ != "initialize"@,
        "session/prompt"@ != "authenticate"@,
        "session/prompt"@ != "session/new"@,
        "session/prompt"@ != "session/load"@,
        "session/prompt"@ != "session/resume"@,
        "session/cancel"@ != "initialize"@,
        "session/cancel"@ != "authenticate"@,
        "session/cancel"@ != "session/new"@,
        "session/cancel"@ != "session/load"@,
        "session/cancel"@ != "session/resume"@,
        "session/cancel"@ != "session/prompt"@,
        "zed/acp_connect"@ != "initialize"@,
        "zed/acp_connect"@ != "authenticate"@,
        "zed/acp_connect"@ != "session/new"@,
        "zed/acp_connect"@ != "session/load"@,
        "zed/acp_connect"@ != "session/resume"@,
        "zed/acp_connect"@ != "session/prompt"@,
        "zed/acp_connect"@ != "session/cancel"@,
{
    reveal_strlit("initialize");
    reveal_strlit("authenticate");
    reveal_strlit("session/new");
    reveal_strlit("session/load");
    reveal_strlit("session/prompt");
    reveal_strlit("session/cancel");
    reveal_strlit("session/resume");
    reveal_strlit("zed/acp_connect");
    assert("initialize"@.len() == 10);
    assert("authenticate"@.len() == 12);
    assert("session/new"@.len() == 11);
    assert("session/load"@.len() == 12);
    assert("session/resume"@.len() == 14);
    assert("session/prompt"@.len() == 14);
    assert("session/cancel"@.len() == 14);
    assert("zed/acp_connect"@.len() == 15);
    assert("authenticate"@[0] != "session/load"@[0]);
    assert("session/resume"@[8] != "session/prompt"@[8]);
    assert("session/resume"@[8] != "session/cancel"@[8]);
    assert("session/prompt"@[8] != "session/cancel"@[8]);
}

/// What a method handler came to.
pub enum HandlerOutcome {
    /// The params did not deserialize.
    InvalidParams(String),
    /// The handler failed.
    Failed(String),
    /// The handler answered this result.
    Succeeded(Value),
}

/// The reply to request `id` for a handler outcome: `INVALID_PARAMS` or
/// `INTERNAL_ERROR` with the error text, or a success with the result.
pub fn reply(id: Option<Value>, outcome: HandlerOutcome) -> (m: JsonRpcMessage)
    ensures
        m.jsonrpc@ == crate::jsonrpc::JSONRPC_VERSION@,
        m.id == id,
        m.method is None,
        m.params is None,
        match outcome {
            HandlerOutcome::InvalidParams(text) => m.result is None && (m.error matches Some(e)
                && e.code == INVALID_PARAMS && e.message@ == text@ && e.data is None),
            HandlerOutcome::Failed(text) => m.result is None && (m.error matches Some(e) && e.code
                == INTERNAL_ERROR && e.message@ == text@ && e.data is None),
            HandlerOutcome::Succeeded(value) => m.result == Some(value) && m.error is None,
        },
{
    match outcome {
        HandlerOutcome::InvalidParams(text) => error_response(id, INVALID_PARAMS, text),
        HandlerOutcome::Failed(text) => error_response(id, INTERNAL_ERROR, text),
        HandlerOutcome::Succeeded(value) => success(id, value),
    }
}

/// The reply to a message without a method: `INVALID_REQUEST`, "missing method".
pub fn missing_method_reply(id: Option<Value>) -> (m: JsonRpcMessage)
    ensures
        m.jsonrpc@ == crate::jsonrpc::JSONRPC_VERSION@,
        m.id == id,
        m.method is None && m.params is None && m.result is None,
        (m.error matches Some(e) && e.code == INVALID_REQUEST && e.message@ == "missing method"@
            && e.data is None),
{
    error_response(id, INVALID_REQUEST, String::from_str("missing method"))
}

/// The reply to an unknown method: `METHOD_NOT_FOUND`,
/// "method not found: <method>".
pub fn method_not_found_reply(id: Option<Value>, method: &str) -> (m: JsonRpcMessage)
    ensures
        m.jsonrpc@ == crate::jsonrpc::JSONRPC_VERSION@,
        m.id == id,
        m.method is None && m.params is None && m.result is None,
        (m.error matches Some(e) && e.code == METHOD_NOT_FOUND && e.message@ == "method not found: "@
            + method@ && e.data is None),
{
    let mut text = String::from_str("method not found: ");
    text.append(method);
    error_response(id, METHOD_NOT_FOUND, text)
}

/// What the GUI does with a request the daemon sends it.
#[derive(Clone, Copy, Debug, PartialEq, Eq, Structural)]
pub enum GuiInbound {
    SessionUpdate,
    RequestPermission,
    CreateElicitation,
    SessionListChanged,
    /// Anything else: `METHOD_NOT_FOUND`.
    Unsupported,
}

pub open spec fn gui_inbound(message: JsonRpcMessage) -> GuiInbound {
    match method_of(message) {
        Some(name) => if name == methods::SESSION_UPDATE@ {
            GuiInbound::SessionUpdate
        } else if name == methods::SESSION_REQUEST_PERMISSION@ {
            GuiInbound::RequestPermission
        } else if name == methods::ELICITATION_CREATE@ {
            GuiInbound::CreateElicitation
        } else if name == methods::SESSION_LIST_CHANGED@ {
            GuiInbound::SessionListChanged
        } else {
            GuiInbound::Unsupported
        },
        None => GuiInbound::Unsupported,
    }
}

/// What the GUI does with a request from the daemon.
pub fn route_gui_inbound(message: &JsonRpcMessage) -> (r: GuiInbound)
    ensures
        r == gui_inbound(*message),
{
    match message.method_name() {
        Some(name) => if same_text(name, methods::SESSION_UPDATE) {
            GuiInbound::SessionUpdate
        } else if same_text(name, methods::SESSION_REQUEST_PERMISSION) {
            GuiInbound::RequestPermission
        } else if same_text(name, methods::ELICITATION_CREATE) {
            GuiInbound::CreateElicitation
        } else if same_text(name, methods::SESSION_LIST_CHANGED) {
            GuiInbound::SessionListChanged
        } else {
            GuiInbound::Unsupported
        },
        None => GuiInbound::Unsupported,
    }
}

/// What the GUI's session emits when the daemon sends a new session list.
#[derive(Clone, Debug)]
pub struct SessionListUpdated(pub SessionListWire);

/// What the GUI answers a daemon request it does not serve.
pub const UNSUPPORTED_INBOUND: &'static str = "GUI only accepts session/update, session/request_permission, elicitation/create, and zed/session_list_changed from the daemon";

/// The GUI's reply to a request it does not serve.
pub fn unsupported_inbound_reply(id: Option<Value>) -> (m: JsonRpcMessage)
    ensures
        m.jsonrpc@ == crate::jsonrpc::JSONRPC_VERSION@,
        m.id == id,
        m.method is None && m.params is None && m.result is None,
        (m.error matches Some(e) && e.code == METHOD_NOT_FOUND && e.message@ == UNSUPPORTED_INBOUND@
            && e.data is None),
{
    error_response(id, METHOD_NOT_FOUND, String::from_str(UNSUPPORTED_INBOUND))
}

/// The reply to a line that is not JSON-RPC: `PARSE_ERROR` with the parser's
/// message, and no id, since none could be read.
pub fn parse_error_reply(message: String) -> (m: JsonRpcMessage)
    ensures
        m.jsonrpc@ == crate::jsonrpc::JSONRPC_VERSION@,
        m.id is None,
        m.method is None && m.params is None && m.result is None,
        (m.error matches Some(e) && e.code == PARSE_ERROR && e.message@ == message@ && e.data is None),
{
    error_response(None, PARSE_ERROR, message)
}

/// What the daemon makes of a GUI's answer to a prompt request.
pub enum PromptReply<'a> {
    /// The GUI answered with this result.
    Answered(&'a Value),
    /// No usable answer yet (an error object or no result): ask again later.
    Retry,
}

/// The answer in a GUI's reply to a permission or elicitation request, or
/// `Retry` when the reply carries an error or no result.
pub fn prompt_reply(message: &JsonRpcMessage) -> (r: PromptReply)
    ensures
        match (message.error, message.result) {
            (None, Some(value)) => (r matches PromptReply::Answered(v) && *v == value),
            _ => r matches PromptReply::Retry,
        },
{
    match message.result_value() {
        Ok(value) => PromptReply::Answered(value),
        Err(ResultError::Rpc { .. }) => PromptReply::Retry,
        Err(ResultError::MissingResult) => PromptReply::Retry,
    }
}

} // verus!
