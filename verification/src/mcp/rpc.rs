//! JSON-RPC 2.0 messages and the MCP payloads they carry.

use vstd::prelude::*;
use crate::json::{json_get, json_i64, json_str, lemma_object_view, Json, JsonValue};
use crate::text::{dec_signed, owned};

verus! {

/// A call that expects an answer (or, without an id, a notification).
pub struct Request {
    pub jsonrpc: String,
    pub id: Option<JsonValue>,
    pub method: String,
    pub params: Option<JsonValue>,
}

impl Request {
    /// A JSON-RPC 2.0 request.
    pub fn new(id: Option<JsonValue>, method: String, params: Option<JsonValue>) -> (r: Self)
        ensures
            r.jsonrpc@ == "2.0"@,
            r.id == id,
            r.method == method,
            r.params == params,
    {
        Request { jsonrpc: String::from_str("2.0"), id, method, params }
    }
}

/// The answer to a request: a result or an error.
pub struct Response {
    pub jsonrpc: String,
    pub id: JsonValue,
    pub result: Option<JsonValue>,
    pub error: Option<JsonRpcError>,
}

/// An error reported in a response.
pub struct JsonRpcError {
    pub code: i64,
    pub message: String,
    pub data: Option<JsonValue>,
}

impl JsonRpcError {
    /// A copy of the error.
    pub fn copy(&self) -> (r: JsonRpcError)
        ensures
            r.code == self.code,
            r.message@ == self.message@,
            match self.data {
                Some(d) => r.data matches Some(e) && e@ == d@,
                None => r.data is None,
            },
    {
        JsonRpcError {
            code: self.code,
            message: self.message.clone(),
            data: match &self.data {
                Some(d) => Some(d.copy()),
                None => None,
            },
        }
    }
}

/// The code of an internal error.
pub const INTERNAL_ERROR: i64 = -32603;

impl Response {
    /// The outcome the response carries: its error if it has one, else its
    /// result, else an internal error saying that both are missing.
    pub fn result(&self) -> (r: Result<JsonValue, JsonRpcError>)
        ensures
            match self.error {
                Some(e) => r matches Err(x) && x.code == e.code && x.message@ == e.message@ && match e.data {
                    Some(d) => x.data matches Some(y) && y@ == d@,
                    None => x.data is None,
                },
                None => match self.result {
                    Some(v) => r matches Ok(w) && w@ == v@,
                    None => r matches Err(x) && x.code == INTERNAL_ERROR && x.message@
                        == "Response missing both result and error"@ && x.data is None,
                },
            },
    {
        if let Some(error) = &self.error {
            Err(error.copy())
        } else if let Some(result) = &self.result {
            Ok(result.copy())
        } else {
            Err(
                JsonRpcError {
                    code: INTERNAL_ERROR,
                    message: String::from_str("Response missing both result and error"),
                    data: None,
                },
            )
        }
    }
}

/// A message that expects no answer.
pub struct Notification {
    pub jsonrpc: String,
    pub method: String,
    pub params: Option<JsonValue>,
}

impl Notification {
    /// A JSON-RPC 2.0 notification.
    pub fn new(method: String, params: Option<JsonValue>) -> (r: Self)
        ensures
            r.jsonrpc@ == "2.0"@,
            r.method == method,
            r.params == params,
    {
        Notification { jsonrpc: String::from_str("2.0"), method, params }
    }
}

/// What a message on the wire is, by the members it has.
pub enum MessageKind {
    Request,
    Response,
    Notification,
    Invalid,
}

/// A message with an `id` and a `method` is a request, with an `id` alone a
/// response, with a `method` alone a notification; anything else is invalid.
pub open spec fn message_kind_spec(v: Json) -> MessageKind {
    if json_get(v, "id"@) is Some {
        if json_get(v, "method"@) is Some {
            MessageKind::Request
        } else {
            MessageKind::Response
        }
    } else if json_get(v, "method"@) is Some {
        MessageKind::Notification
    } else {
        MessageKind::Invalid
    }
}

/// Which kind of message `v` is (see [`message_kind_spec`]).
pub fn message_kind(v: &JsonValue) -> (k: MessageKind)
    ensures
        k == message_kind_spec(v@),
{
    if v.get("id").is_some() {
        if v.get("method").is_some() {
            MessageKind::Request
        } else {
            MessageKind::Response
        }
    } else if v.get("method").is_some() {
        MessageKind::Notification
    } else {
        MessageKind::Invalid
    }
}

/// A message of any of the three kinds.
pub enum Message {
    Request(Request),
    Response(Response),
    Notification(Notification),
}

/// The `initialize` request's parameters.
pub struct InitializeParams {
    pub client_info: ClientInfo,
    pub trace: Option<String>,
}

/// Who the client is.
pub struct ClientInfo {
    pub name: String,
    pub version: String,
}

/// The `initialize` response's result.
pub struct InitializeResult {
    pub server_info: ServerInfo,
    pub capabilities: ServerCapabilities,
}

/// Who the server is.
pub struct ServerInfo {
    pub name: String,
    pub version: String,
}

/// What a server offers.
pub struct ServerCapabilities {
    pub tools: Vec<Tool>,
    pub resources: Vec<Resource>,
}

/// A tool a server offers, with the JSON schema of its parameters.
pub struct Tool {
    pub name: String,
    pub description: Option<String>,
    pub parameters: Option<JsonValue>,
}

/// A resource a server offers.
pub struct Resource {
    pub name: String,
    pub description: Option<String>,
}

/// The `mcp/tool/execute` request's parameters (`name` and `args` on the wire).
pub struct ExecuteToolParams {
    pub tool_name: String,
    pub arguments: JsonValue,
}

/// The `mcp/tool/execute` response's result.
pub struct ExecuteToolResult {
    pub result: JsonValue,
}

/// The parameters of a `window/logMessage` notification: 1 is an error, 2 a
/// warning, 3 information, 4 a log line.
pub struct LogMessageParams {
    pub type_: i32,
    pub message: String,
}

/// The parameters of a `$/progress` notification.
pub struct ProgressParams {
    pub token: JsonValue,
    pub value: JsonValue,
}

/// The parameters of a `$/cancelRequest` notification.
pub struct CancelParams {
    pub id: JsonValue,
}

/// The `mcp/resource/get` request's parameters.
pub struct GetResourceParams {
    pub name: String,
    pub params: Option<JsonValue>,
}

/// The parameters of a log notification: `{"type": level, "message": message}`.
pub open spec fn log_params(message: Seq<char>, level: i32) -> Json {
    Json::Object(seq![("type"@, Json::Number(dec_signed(level as int))), ("message"@, Json::Str(message))])
}

/// A `window/logMessage` notification carrying `message` at `level`.
pub fn create_log_notification(message: &str, level: i32) -> (n: Notification)
    ensures
        n.jsonrpc@ == "2.0"@,
        n.method@ == "window/logMessage"@,
        n.params matches Some(p) && p@ == log_params(message@, level),
{
    let members = vec![
        (String::from_str("type"), json_i64(level as i64)),
        (String::from_str("message"), json_str(message)),
    ];
    proof {
        lemma_object_view(members);
        assert(crate::json::members_view(members@) =~= seq![("type"@, Json::Number(dec_signed(level as int))), ("message"@, Json::Str(message@))]);
    }
    Notification::new(String::from_str("window/logMessage"), Some(JsonValue::Object(members)))
}

} // verus!
