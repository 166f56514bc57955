//! JSON-RPC 2.0 message shapes for ACP tunneled in `SessionAgentRpc.json`.
//!
//! Payload values (`id`, `params`, `result`, `data`) are `serde_json::Value`s
//! carried through unchanged. Turning a line of text into a message and back
//! is serde's work and happens at the edge of the library.

use serde_json::Value;

use vstd::prelude::*;

use crate::methods;

verus! {

#[verifier::external_type_specification]
#[verifier::external_body]
pub struct ExJsonValue(serde_json::Value);

/// JSON-RPC 2.0 version literal.
pub const JSONRPC_VERSION: &'static str = "2.0";

pub const PARSE_ERROR: i64 = -32700;

pub const INVALID_REQUEST: i64 = -32600;

pub const METHOD_NOT_FOUND: i64 = -32601;

pub const INVALID_PARAMS: i64 = -32602;

pub const INTERNAL_ERROR: i64 = -32603;

/// JSON-RPC error object.
pub struct JsonRpcError {
    pub code: i64,
    pub message: String,
    pub data: Option<Value>,
}

/// Wire object carried in `SessionAgentRpc.json`.
pub struct JsonRpcMessage {
    pub jsonrpc: String,
    pub id: Option<Value>,
    pub method: Option<String>,
    pub params: Option<Value>,
    pub result: Option<Value>,
    pub error: Option<JsonRpcError>,
}

/// Why a response carries no usable result.
pub enum ResultError {
    /// The peer answered with a JSON-RPC error object.
    Rpc { code: i64, message: String },
    /// Neither `result` nor `error` is present.
    MissingResult,
}

/// The method name of `m` as characters, if it has one.
pub open spec fn method_of(m: JsonRpcMessage) -> Option<Seq<char>> {
    match m.method {
        Some(name) => Some(name@),
        None => None,
    }
}

impl JsonRpcMessage {
    pub fn is_request(&self) -> (r: bool)
        ensures
            r == (self.method is Some && self.id is Some),
    {
        self.method.is_some() && self.id.is_some()
    }

    pub fn is_notification(&self) -> (r: bool)
        ensures
            r == (self.method is Some && self.id is None),
    {
        self.method.is_some() && self.id.is_none()
    }

    pub fn is_response(&self) -> (r: bool)
        ensures
            r == (self.method is None && (self.result is Some || self.error is Some)),
    {
        self.method.is_none() && (self.result.is_some() || self.error.is_some())
    }

    pub fn method_name(&self) -> (r: Option<&str>)
        ensures
            match r {
                Some(name) => method_of(*self) == Some(name@),
                None => self.method is None,
            },
    {
        match &self.method {
            Some(name) => Some(name.as_str()),
            None => None,
        }
    }

    /// The result of a response: the peer's error when it sent one, else the
    /// `result` value, else `MissingResult`.
    pub fn result_value(&self) -> (r: Result<&Value, ResultError>)
        ensures
            match self.error {
                Some(error) => r matches Err(ResultError::Rpc { code, message }) && code == error.code
                    && message@ == error.message@,
                None => match self.result {
                    Some(value) => r == Ok::<&Value, ResultError>(&value),
                    None => r matches Err(ResultError::MissingResult),
                },
            },
    {
        match &self.error {
            Some(error) => Err(ResultError::Rpc { code: error.code, message: error.message.clone() }),
            None => match &self.result {
                Some(value) => Ok(value),
                None => Err(ResultError::MissingResult),
            },
        }
    }
}

/// A message with version `2.0` and the given parts.
pub open spec fn message_is(
    m: JsonRpcMessage,
    id: Option<Value>,
    method: Option<Seq<char>>,
    params: Option<Value>,
    result: Option<Value>,
) -> bool {
    &&& m.jsonrpc@ == JSONRPC_VERSION@
    &&& m.id == id
    &&& method_of(m) == method
    &&& m.params == params
    &&& m.result == result
}

fn version() -> (r: String)
    ensures
        r@ == JSONRPC_VERSION@,
{
    String::from_str(JSONRPC_VERSION)
}

/// A JSON-RPC request.
pub fn request(id: Value, method: &str, params: Value) -> (m: JsonRpcMessage)
    ensures
        message_is(m, Some(id), Some(method@), Some(params), None),
        m.error is None,
{
    JsonRpcMessage {
        jsonrpc: version(),
        id: Some(id),
        method: Some(method.to_owned()),
        params: Some(params),
        result: None,
        error: None,
    }
}

/// A JSON-RPC notification: no id, so a missing receiver is no error.
pub fn notification(method: &str, params: Value) -> (m: JsonRpcMessage)
    ensures
        message_is(m, None, Some(method@), Some(params), None),
        m.error is None,
{
    JsonRpcMessage {
        jsonrpc: version(),
        id: None,
        method: Some(method.to_owned()),
        params: Some(params),
        result: None,
        error: None,
    }
}

/// A JSON-RPC success response.
pub fn success(id: Option<Value>, result: Value) -> (m: JsonRpcMessage)
    ensures
        message_is(m, id, None, None, Some(result)),
        m.error is None,
{
    JsonRpcMessage {
        jsonrpc: version(),
        id,
        method: None,
        params: None,
        result: Some(result),
        error: None,
    }
}

/// A JSON-RPC error response.
pub fn error_response(id: Option<Value>, code: i64, message: String) -> (m: JsonRpcMessage)
    ensures
        message_is(m, id, None, None, None),
        m.error matches Some(error) && error.code == code && error.message@ == message@
            && error.data is None,
{
    JsonRpcMessage {
        jsonrpc: version(),
        id,
        method: None,
        params: None,
        result: None,
        error: Some(JsonRpcError { code, message, data: None }),
    }
}

/// The `params` of the `session/update` messages among `messages` whose
/// `sessionId` (given for each message in `session_ids`) is `session_id`.
pub open spec fn session_update_selection(
    messages: Seq<JsonRpcMessage>,
    session_ids: Seq<Option<Seq<char>>>,
    session_id: Seq<char>,
) -> Seq<Value>
    decreases messages.len(),
{
    if messages.len() == 0 {
        Seq::empty()
    } else {
        let rest = session_update_selection(
            messages.drop_last(),
            session_ids.drop_last(),
            session_id,
        );
        let m = messages.last();
        if method_of(m) == Some(methods::SESSION_UPDATE@) && m.params is Some
            && session_ids.last() == Some(session_id) {
            rest.push(m.params->0)
        } else {
            rest
        }
    }
}

/// The values behind a list of references.
pub open spec fn values_of(v: Seq<&Value>) -> Seq<Value> {
    v.map_values(|r: &Value| *r)
}

/// What `params["sessionId"]` holds when it is a string
/// (`serde_json::Value::get`, then `Value::as_str`), or none.
pub uninterp spec fn session_id_in(params: Value) -> Option<Seq<char>>;

/// `params["sessionId"]` when it is a string (`serde_json::Value::get`, then
/// `Value::as_str`); the contract names the answer.
#[verifier::external_body]
fn params_session_id(params: &Value) -> (r: Option<String>)
    ensures
        r matches Some(s) ==> session_id_in(*params) == Some(s@),
        r is None ==> session_id_in(*params) is None,
{
    match params.get("sessionId") {
        Some(value) => match value.as_str() {
            Some(text) => Some(text.to_string()),
            None => None,
        },
        None => None,
    }
}

/// The session id each message carries in its `params`.
pub open spec fn message_session_ids(messages: Seq<JsonRpcMessage>) -> Seq<Option<Seq<char>>> {
    messages.map_values(
        |m: JsonRpcMessage|
            match m.params {
                Some(p) => session_id_in(p),
                None => None,
            },
    )
}

/// Keeps the `params` of the `session/update` messages whose session id (in
/// `session_ids`, one per message) is `session_id`, in order.
pub fn select_session_updates<'a>(
    messages: &'a Vec<JsonRpcMessage>,
    session_ids: &Vec<Option<String>>,
    session_id: &str,
) -> (r: Vec<&'a Value>)
    requires
        session_ids@.len() == messages@.len(),
    ensures
        values_of(r@) == session_update_selection(
            messages@,
            session_ids@.map_values(|id: Option<String>| match id {
                Some(s) => Some(s@),
                None => None,
            }),
            session_id@,
        ),
{
    let ghost ids = session_ids@.map_values(|id: Option<String>| match id {
        Some(s) => Some(s@),
        None => None,
    });
    let update = String::from_str(methods::SESSION_UPDATE);
    let wanted = session_id.to_owned();
    let mut r: Vec<&'a Value> = Vec::new();
    let mut i: usize = 0;
    while i < messages.len()
        invariant
            i <= messages@.len(),
            session_ids@.len() == messages@.len(),
            ids == session_ids@.map_values(|id: Option<String>| match id {
                Some(s) => Some(s@),
                None => None,
            }),
            update@ == methods::SESSION_UPDATE@,
            wanted@ == session_id@,
            values_of(r@) == session_update_selection(
                messages@.take(i as int),
                ids.take(i as int),
                session_id@,
            ),
        decreases messages@.len() - i,
    {
        let m = &messages[i];
        let ghost before = r@;
        assert(messages@.take(i + 1).drop_last() =~= messages@.take(i as int));
        assert(ids.take(i + 1).drop_last() =~= ids.take(i as int));
        let is_update = match &m.method {
            Some(name) => *name == update,
            None => false,
        };
        if is_update {
            match &m.params {
                Some(params) => {
                    let matches = match &session_ids[i] {
                        Some(id) => *id == wanted,
                        None => false,
                    };
                    if matches {
                        r.push(params);
                        assert(values_of(r@) =~= values_of(before).push(*params));
                    }
                },
                None => {},
            }
        }
        i += 1;
    }
    assert(messages@.take(messages@.len() as int) =~= messages@);
    assert(ids.take(messages@.len() as int) =~= ids);
    r
}

/// `session/update` params from a catch-up log that belong to `session_id`.
///
/// A disconnect does not clear the log; a later catch-up returns only unseen
/// lines, and this filter drops the updates of other ACP sessions: a message
/// is kept when its `params` carry `sessionId` equal to `session_id`.
pub fn catch_up_session_update_params<'a>(
    messages: &'a Vec<JsonRpcMessage>,
    session_id: &str,
) -> (r: Vec<&'a Value>)
    ensures
        values_of(r@) == session_update_selection(
            messages@,
            message_session_ids(messages@),
            session_id@,
        ),
{
    let mut session_ids: Vec<Option<String>> = Vec::new();
    let mut i: usize = 0;
    while i < messages.len()
        invariant
            i <= messages@.len(),
            session_ids@.len() == i,
            forall|j: int|
                0 <= j < i ==> (match #[trigger] session_ids@[j] {
                    Some(s) => Some(s@),
                    None => None,
                }) == message_session_ids(messages@)[j],
        decreases messages@.len() - i,
    {
        let id = match &messages[i].params {
            Some(params) => params_session_id(params),
            None => None,
        };
        session_ids.push(id);
        i += 1;
    }
    proof {
        assert(session_ids@.map_values(
            |id: Option<String>|
                match id {
                    Some(s) => Some(s@),
                    None => None,
                },
        ) =~= message_session_ids(messages@));
    }
    select_session_updates(messages, &session_ids, session_id)
}

} // verus!
