//! The decisions of the host that runs the MCP servers: how a server is
//! started, the requests it is sent, how its answers and notifications are
//! routed, how the capabilities of all servers are combined, and the
//! auto-execute lists.

use vstd::prelude::*;
use crate::json::{
    get_str, json_as_u64, json_get, json_object, json_str, json_u64, member, members_view, Json,
    JsonValue,
};
use crate::mcp::config::McpServerConfig;
use crate::mcp::rpc::{
    GetResourceParams, JsonRpcError, Request, Resource, Response, ServerCapabilities, Tool,
};
use crate::text::{
    cat2, cat3, cat4, cat5, chars_of, copy_strings, dec, dec_signed, i64_to_string, parse_u64,
    parse_u64_spec, str_eq, strings_view,
};

verus! {

/// How a server process is started.
pub struct LaunchPlan {
    pub program: String,
    pub args: Vec<String>,
}

/// The program of a server is the first word of its command; its arguments
/// are the rest of the command, then `args`. An empty command is refused.
pub fn launch_plan(config: &McpServerConfig) -> (r: Result<LaunchPlan, String>)
    ensures
        (r is Err) == (config.command@.len() == 0),
        r matches Err(e) ==> e@ == "Server '"@ + config.name@ + "': Empty command"@,
        r matches Ok(p) ==> p.program@ == config.command@[0]@ && strings_view(p.args@)
            == strings_view(config.command@.skip(1)) + strings_view(config.args@),
{
    if config.command.len() == 0 {
        return Err(cat3("Server '", config.name.as_str(), "': Empty command"));
    }
    let mut args: Vec<String> = Vec::new();
    let n = config.command.len();
    let mut i: usize = 1;
    while i < n
        invariant
            n == config.command@.len(),
            1 <= i <= n,
            args@.len() == i - 1,
            forall|k: int| 0 <= k < i - 1 ==> #[trigger] args@[k] == config.command@[k + 1],
        decreases n - i,
    {
        args.push(config.command[i].clone());
        i = i + 1;
    }
    let mut j: usize = 0;
    while j < config.args.len()
        invariant
            n == config.command@.len(),
            n >= 1,
            j <= config.args@.len(),
            args@.len() == n - 1 + j,
            forall|k: int| 0 <= k < n - 1 ==> #[trigger] args@[k] == config.command@[k + 1],
            forall|k: int| 0 <= k < j ==> #[trigger] args@[n - 1 + k] == config.args@[k],
        decreases config.args@.len() - j,
    {
        args.push(config.args[j].clone());
        j = j + 1;
    }
    assert(strings_view(args@) =~= strings_view(config.command@.skip(1)) + strings_view(config.args@)) by {
        assert forall|k: int| 0 <= k < args@.len() implies #[trigger] strings_view(args@)[k] == (strings_view(config.command@.skip(1)) + strings_view(config.args@))[k] by {
            if k < n - 1 {
                assert(args@[k] == config.command@[k + 1]);
            } else {
                assert(args@[n - 1 + (k - (n - 1))] == config.args@[k - (n - 1)]);
            }
        }
    }
    Ok(LaunchPlan { program: config.command[0].clone(), args })
}

/// The parameters of `initialize`: `{"clientInfo": {"name", "version"}}`.
pub open spec fn initialize_params_json(name: Seq<char>, version: Seq<char>) -> Json {
    Json::Object(
        seq![("clientInfo"@, Json::Object(seq![("name"@, Json::Str(name)), ("version"@, Json::Str(version))]))],
    )
}

/// A request whose id is the number `id`.
pub open spec fn numbered(r: Request, id: u64, method: Seq<char>) -> bool {
    &&& r.jsonrpc@ == "2.0"@
    &&& r.id matches Some(i) && i@ == Json::Number(dec(id as nat))
    &&& r.method@ == method
}

/// The `initialize` request that opens a session with a server.
pub fn initialize_request(id: u64, client_name: &str, client_version: &str) -> (r: Request)
    ensures
        numbered(r, id, "initialize"@),
        r.params matches Some(p) && p@ == initialize_params_json(client_name@, client_version@),
{
    let im = vec![member("name", json_str(client_name)), member("version", json_str(client_version))];
    assert(members_view(im@) =~= seq![("name"@, Json::Str(client_name@)), ("version"@, Json::Str(client_version@))]);
    let info = json_object(im);
    let m = vec![member("clientInfo", info)];
    assert(members_view(m@) =~= seq![("clientInfo"@, info@)]);
    let params = json_object(m);
    Request::new(Some(json_u64(id)), String::from_str("initialize"), Some(params))
}

/// The parameters of `mcp/tool/execute`: `{"name": tool, "args": arguments}`.
pub open spec fn execute_params_json(tool: Seq<char>, arguments: Json) -> Json {
    Json::Object(seq![("name"@, Json::Str(tool)), ("args"@, arguments)])
}

/// The request that runs the tool `tool_name` with `arguments`.
pub fn execute_tool_request(id: u64, tool_name: &str, arguments: &JsonValue) -> (r: Request)
    ensures
        numbered(r, id, "mcp/tool/execute"@),
        r.params matches Some(p) && p@ == execute_params_json(tool_name@, arguments@),
{
    let m = vec![member("name", json_str(tool_name)), member("args", arguments.copy())];
    assert(members_view(m@) =~= seq![("name"@, Json::Str(tool_name@)), ("args"@, arguments@)]);
    Request::new(Some(json_u64(id)), String::from_str("mcp/tool/execute"), Some(json_object(m)))
}

/// The parameters of `resource/get`: the name, and the parameters if any.
pub open spec fn resource_params_json(name: Seq<char>, params: Option<Json>) -> Json {
    match params {
        Some(p) => Json::Object(seq![("name"@, Json::Str(name)), ("params"@, p)]),
        None => Json::Object(seq![("name"@, Json::Str(name))]),
    }
}

/// The request that reads the resource named in `params`.
pub fn get_resource_request(id: u64, params: &GetResourceParams) -> (r: Request)
    ensures
        numbered(r, id, "resource/get"@),
        r.params matches Some(p) && p@ == resource_params_json(
            params.name@,
            match params.params {
                Some(q) => Some(q@),
                None => None,
            },
        ),
{
    let mut m = vec![member("name", json_str(params.name.as_str()))];
    match &params.params {
        Some(q) => {
            m.push(member("params", q.copy()));
            assert(members_view(m@) =~= seq![("name"@, Json::Str(params.name@)), ("params"@, q@)]);
        },
        None => {
            assert(members_view(m@) =~= seq![("name"@, Json::Str(params.name@))]);
        },
    }
    Request::new(Some(json_u64(id)), String::from_str("resource/get"), Some(json_object(m)))
}

/// The parameters that ask a server for the metadata of the file `path`.
pub fn file_info_params(path: &str) -> (r: GetResourceParams)
    ensures
        r.name@ == "file_info"@,
        r.params matches Some(p) && p@ == Json::Object(seq![("path"@, Json::Str(path@))]),
{
    let m = vec![member("path", json_str(path))];
    assert(members_view(m@) =~= seq![("path"@, Json::Str(path@))]);
    GetResourceParams { name: String::from_str("file_info"), params: Some(json_object(m)) }
}

/// The error for a request that could not be handed to the server.
pub fn send_failure_error(reason: &str) -> (e: JsonRpcError)
    ensures
        e.code == -32000,
        e.message@ == "Failed to send request to server: "@ + reason@,
        e.data is None,
{
    JsonRpcError { code: -32000, message: cat2("Failed to send request to server: ", reason), data: None }
}

/// The error for a tool call whose answer channel closed.
pub fn tool_channel_closed_error(reason: &str) -> (e: JsonRpcError)
    ensures
        e.code == -32001,
        e.message@ == "Failed to receive tool response: channel closed"@,
        e.data matches Some(d) && d@ == Json::Str(reason@),
{
    JsonRpcError {
        code: -32001,
        message: String::from_str("Failed to receive tool response: channel closed"),
        data: Some(json_str(reason)),
    }
}

/// The error for a tool call that got no answer within 60 seconds.
pub fn tool_timeout_error() -> (e: JsonRpcError)
    ensures
        e.code == -32002,
        e.message@ == "Tool execution timed out after 60s"@,
        e.data is None,
{
    JsonRpcError { code: -32002, message: String::from_str("Tool execution timed out after 60s"), data: None }
}

/// The error for a resource read whose answer channel closed.
pub fn resource_channel_closed_error(reason: &str) -> (e: JsonRpcError)
    ensures
        e.code == -32001,
        e.message@ == "Failed to receive resource response: channel closed"@,
        e.data matches Some(d) && d@ == Json::Str(reason@),
{
    JsonRpcError {
        code: -32001,
        message: String::from_str("Failed to receive resource response: channel closed"),
        data: Some(json_str(reason)),
    }
}

/// The error for a resource read that got no answer within 30 seconds.
pub fn resource_timeout_error() -> (e: JsonRpcError)
    ensures
        e.code == -32002,
        e.message@ == "Resource retrieval timed out after 30s"@,
        e.data is None,
{
    JsonRpcError { code: -32002, message: String::from_str("Resource retrieval timed out after 30s"), data: None }
}

/// The error every waiting request gets when reading from the server fails.
pub fn connection_error(reason: &str) -> (e: JsonRpcError)
    ensures
        e.code == -32000,
        e.message@ == "Connection error: "@ + reason@,
        e.data is None,
{
    JsonRpcError { code: -32000, message: cat2("Connection error: ", reason), data: None }
}

/// The error every request still waiting gets when the server's output ends.
pub fn connection_closed_error() -> (e: JsonRpcError)
    ensures
        e.code == -32001,
        e.message@ == "Server connection closed unexpectedly"@,
        e.data is None,
{
    JsonRpcError { code: -32001, message: String::from_str("Server connection closed unexpectedly"), data: None }
}

/// The error for an `initialize` result that does not parse.
pub fn initialize_parse_error(reason: &str, result: JsonValue) -> (e: JsonRpcError)
    ensures
        e.code == -32603,
        e.message@ == "Failed to parse initialize result: "@ + reason@,
        e.data matches Some(d) && d@ == result@,
{
    JsonRpcError { code: -32603, message: cat2("Failed to parse initialize result: ", reason), data: Some(result) }
}

/// What the id of a response says.
pub enum ResponseId {
    /// `null`: an answer nobody waits for.
    Null,
    /// The id of a request.
    Id(u64),
    /// Not a request id.
    Invalid,
}

/// A number id is read as a `u64`, a string id is parsed as one, `null` is
/// noted as such, and anything else is invalid.
pub open spec fn response_id_spec(id: Json) -> ResponseId {
    match id {
        Json::Null => ResponseId::Null,
        Json::Number(_) => match json_as_u64(id) {
            Some(n) => ResponseId::Id(n),
            None => ResponseId::Invalid,
        },
        Json::Str(s) => match parse_u64_spec(s) {
            Some(n) => ResponseId::Id(n),
            None => ResponseId::Invalid,
        },
        _ => ResponseId::Invalid,
    }
}

/// What the id of a response says (see [`response_id_spec`]).
pub fn response_id(id: &JsonValue) -> (r: ResponseId)
    ensures
        r == response_id_spec(id@),
{
    match id {
        JsonValue::Null => ResponseId::Null,
        JsonValue::Number(_) => match id.as_u64() {
            Some(n) => ResponseId::Id(n),
            None => ResponseId::Invalid,
        },
        JsonValue::Str(s) => match parse_u64(s.as_str()) {
            Some(n) => ResponseId::Id(n),
            None => ResponseId::Invalid,
        },
        _ => ResponseId::Invalid,
    }
}

/// The requests sent to the servers and not answered yet: each one's id and
/// the method it asked for. Ids come from a counter that starts at 1 and
/// only grows, so no two requests share one.
pub struct PendingRequests {
    pub next_id: u64,
    pub waiting: Vec<(u64, String)>,
}

impl View for PendingRequests {
    type V = Seq<(u64, Seq<char>)>;

    open spec fn view(&self) -> Seq<(u64, Seq<char>)> {
        self.waiting@.map_values(|e: (u64, String)| (e.0, e.1@))
    }
}

impl PendingRequests {
    /// Every waiting id is below the counter, and no two are the same.
    pub open spec fn well_formed(&self) -> bool {
        &&& forall|i: int| 0 <= i < self@.len() ==> #[trigger] self@[i].0 < self.next_id
        &&& forall|i: int, j: int| 0 <= i < j < self@.len() ==> (#[trigger] self@[i]).0 != (#[trigger] self@[j]).0
    }

    /// Nothing waits, and the first id is 1.
    pub fn new() -> (p: Self)
        ensures
            p.well_formed(),
            p.next_id == 1,
            p@ == Seq::<(u64, Seq<char>)>::empty(),
    {
        let p = PendingRequests { next_id: 1, waiting: Vec::new() };
        assert(p@ =~= Seq::<(u64, Seq<char>)>::empty());
        p
    }

    /// Gives the next id to a request for `method` and keeps it waiting.
    /// The id is new: no waiting request has it.
    pub fn register(&mut self, method: &str) -> (id: u64)
        requires
            old(self).well_formed(),
            old(self).next_id < u64::MAX,
        ensures
            final(self).well_formed(),
            id == old(self).next_id,
            final(self).next_id == id + 1,
            final(self)@ == old(self)@.push((id, method@)),
            forall|i: int| 0 <= i < old(self)@.len() ==> #[trigger] old(self)@[i].0 != id,
    {
        let id = self.next_id;
        let ghost before = self@;
        self.waiting.push((id, String::from_str(method)));
        self.next_id = id + 1;
        assert(self@ =~= before.push((id, method@)));
        id
    }

    /// Takes the request waiting under `id` out, giving its method; `None`,
    /// with nothing changed, when no request waits under `id`.
    pub fn take(&mut self, id: u64) -> (m: Option<String>)
        requires
            old(self).well_formed(),
        ensures
            final(self).well_formed(),
            final(self).next_id == old(self).next_id,
            match m {
                Some(method) => exists|i: int|
                    0 <= i < old(self)@.len() && #[trigger] old(self)@[i] == (id, method@) && final(self)@
                        == old(self)@.remove(i),
                None => final(self)@ == old(self)@ && forall|i: int|
                    0 <= i < old(self)@.len() ==> #[trigger] old(self)@[i].0 != id,
            },
    {
        let mut i: usize = 0;
        while i < self.waiting.len()
            invariant
                i <= self@.len(),
                self.well_formed(),
                self@ == old(self)@,
                self.next_id == old(self).next_id,
                self.waiting@.len() == self@.len(),
                forall|k: int| 0 <= k < i ==> #[trigger] self@[k].0 != id,
            decreases self.waiting@.len() - i,
        {
            if self.waiting[i].0 == id {
                let ghost before = self@;
                let ghost entries = self.waiting@;
                let (_, method) = self.waiting.remove(i);
                assert(self@ =~= before.remove(i as int));
                assert(before[i as int] == (entries[i as int].0, entries[i as int].1@));
                assert(before[i as int] == (id, method@));
                assert forall|a: int| 0 <= a < self@.len() implies #[trigger] self@[a].0 < self.next_id by {
                    if a < i {
                        assert(self@[a] == before[a]);
                    } else {
                        assert(self@[a] == before[a + 1]);
                    }
                }
                assert forall|a: int, b: int| 0 <= a < b < self@.len() implies (#[trigger] self@[a]).0 != (
                #[trigger] self@[b]).0 by {
                    let a2 = if a < i { a } else { a + 1 };
                    let b2 = if b < i { b } else { b + 1 };
                    assert(self@[a] == before[a2]);
                    assert(self@[b] == before[b2]);
                    assert(before[a2].0 != before[b2].0);
                }
                return Some(method);
            }
            i = i + 1;
        }
        None
    }
}

/// Where the outcome of a response goes.
pub enum ResponseRoute {
    /// The answer to `initialize`: its result is the server's capabilities.
    Initialize(Result<JsonValue, JsonRpcError>),
    /// The answer to another request.
    Other(Result<JsonValue, JsonRpcError>),
    /// Nobody waits for it.
    Unknown,
}

/// Routes a response to the request that waits for it, whose method is
/// `pending_method` (`None` when nothing waits under its id).
pub fn route_response(pending_method: Option<&str>, response: &Response) -> (r: ResponseRoute)
    ensures
        pending_method is None ==> r is Unknown,
        pending_method matches Some(m) ==> (m@ == "initialize"@ <==> r is Initialize),
        pending_method matches Some(m) ==> (m@ != "initialize"@ <==> r is Other),
        r matches ResponseRoute::Initialize(o) ==> outcome_of(response, o),
        r matches ResponseRoute::Other(o) ==> outcome_of(response, o),
{
    match pending_method {
        None => ResponseRoute::Unknown,
        Some(m) => {
            let o = response.result();
            if str_eq(m, "initialize") {
                ResponseRoute::Initialize(o)
            } else {
                ResponseRoute::Other(o)
            }
        },
    }
}

/// `o` is what [`Response::result`] gives for `response`.
pub open spec fn outcome_of(response: &Response, o: Result<JsonValue, JsonRpcError>) -> bool {
    match response.error {
        Some(e) => o matches Err(x) && x.code == e.code && x.message@ == e.message@,
        None => match response.result {
            Some(v) => o matches Ok(w) && w@ == v@,
            None => o matches Err(x) && x.code == -32603 && x.message@
                == "Response missing both result and error"@,
        },
    }
}

/// The severity of a server's log message.
pub enum LogLevel {
    Error,
    Warn,
    Info,
    Debug,
}

/// Type 1 is an error, 2 a warning, 3 information; anything else is debug.
pub fn log_level(type_: i32) -> (l: LogLevel)
    ensures
        type_ == 1 ==> l is Error,
        type_ == 2 ==> l is Warn,
        type_ == 3 ==> l is Info,
        !(1 <= type_ <= 3) ==> l is Debug,
{
    if type_ == 1 {
        LogLevel::Error
    } else if type_ == 2 {
        LogLevel::Warn
    } else if type_ == 3 {
        LogLevel::Info
    } else {
        LogLevel::Debug
    }
}

/// The notifications the host understands.
pub enum NotificationKind {
    LogMessage,
    Progress,
    CancelRequest,
    Other,
}

/// The kind of a notification by its method.
pub fn notification_kind(method: &str) -> (k: NotificationKind)
    ensures
        (k is LogMessage) == (method@ == "window/logMessage"@),
        (k is Progress) == (method@ == "$/progress"@),
        (k is CancelRequest) == (method@ == "$/cancelRequest"@),
{
    proof {
        reveal_strlit("window/logMessage");
        reveal_strlit("$/progress");
        reveal_strlit("$/cancelRequest");
        assert("window/logMessage"@[0] != "$/progress"@[0]);
        assert("window/logMessage"@[0] != "$/cancelRequest"@[0]);
        assert("$/progress"@[2] != "$/cancelRequest"@[2]);
    }
    if str_eq(method, "window/logMessage") {
        NotificationKind::LogMessage
    } else if str_eq(method, "$/progress") {
        NotificationKind::Progress
    } else if str_eq(method, "$/cancelRequest") {
        NotificationKind::CancelRequest
    } else {
        NotificationKind::Other
    }
}

/// The only request a server may send the host: `sampling/start`.
pub fn is_sampling_start(method: &str) -> (b: bool)
    ensures
        b == (method@ == "sampling/start"@),
{
    str_eq(method, "sampling/start")
}

/// A tool's name and description as the combined capabilities show it.
pub open spec fn prefixed_name(server: Seq<char>, name: Seq<char>) -> Seq<char> {
    server + seq!['/'] + name
}

/// A description with the server it comes from in front.
pub open spec fn from_server(server: Seq<char>, d: Seq<char>) -> Seq<char> {
    "[From "@ + server + "] "@ + d
}

/// A description, prefixed when there is one.
pub open spec fn prefixed_description(server: Seq<char>, d: Option<String>) -> Option<Seq<char>> {
    match d {
        Some(x) => Some(from_server(server, x@)),
        None => None,
    }
}

/// The description with the server in front, if there is one.
fn prefix_description(server: &str, d: &Option<String>) -> (r: Option<String>)
    ensures
        match r {
            Some(x) => prefixed_description(server@, *d) == Some(x@),
            None => d is None,
        },
{
    match d {
        Some(x) => Some(cat4("[From ", server, "] ", x.as_str())),
        None => None,
    }
}

/// `tool` as it appears among the combined capabilities.
pub open spec fn tool_prefixed(server: Seq<char>, tool: Tool, t: Tool) -> bool {
    &&& t.name@ == prefixed_name(server, tool.name@)
    &&& match t.description {
        Some(x) => prefixed_description(server, tool.description) == Some(x@),
        None => tool.description is None,
    }
    &&& match tool.parameters {
        Some(p) => t.parameters matches Some(q) && q@ == p@,
        None => t.parameters is None,
    }
}

/// `resource` as it appears among the combined capabilities.
pub open spec fn resource_prefixed(server: Seq<char>, resource: Resource, r: Resource) -> bool {
    &&& r.name@ == prefixed_name(server, resource.name@)
    &&& match r.description {
        Some(x) => prefixed_description(server, resource.description) == Some(x@),
        None => resource.description is None,
    }
}

/// The capabilities of all initialized servers in one list: each tool and
/// resource named `server/name`, its description marked `[From server]`,
/// server after server and in each server's order.
pub fn combine_capabilities(servers: &Vec<(String, ServerCapabilities)>) -> (r: ServerCapabilities)
    ensures
        exists|tool_owner: Seq<(int, int)>|
            #![trigger tool_owner.len()]
            tool_owner.len() == r.tools@.len() && (forall|k: int|
                0 <= k < r.tools@.len() ==> {
                    let (s, t) = #[trigger] tool_owner[k];
                    0 <= s < servers@.len() && 0 <= t < servers@[s].1.tools@.len() && tool_prefixed(
                        servers@[s].0@,
                        servers@[s].1.tools@[t],
                        r.tools@[k],
                    )
                }) && (forall|k1: int, k2: int|
                0 <= k1 < k2 < tool_owner.len() ==> (#[trigger] tool_owner[k1]).0 < (#[trigger] tool_owner[k2]).0
                    || (tool_owner[k1].0 == tool_owner[k2].0 && tool_owner[k1].1 < tool_owner[k2].1)),
        exists|res_owner: Seq<(int, int)>|
            #![trigger res_owner.len()]
            res_owner.len() == r.resources@.len() && (forall|k: int|
                0 <= k < r.resources@.len() ==> {
                    let (s, t) = #[trigger] res_owner[k];
                    0 <= s < servers@.len() && 0 <= t < servers@[s].1.resources@.len() && resource_prefixed(
                        servers@[s].0@,
                        servers@[s].1.resources@[t],
                        r.resources@[k],
                    )
                }) && (forall|k1: int, k2: int|
                0 <= k1 < k2 < res_owner.len() ==> (#[trigger] res_owner[k1]).0 < (#[trigger] res_owner[k2]).0
                    || (res_owner[k1].0 == res_owner[k2].0 && res_owner[k1].1 < res_owner[k2].1)),
        r.tools@.len() == total_tools(servers@),
        r.resources@.len() == total_resources(servers@),
{
    let mut tools: Vec<Tool> = Vec::new();
    let mut resources: Vec<Resource> = Vec::new();
    let ghost mut owner: Seq<(int, int)> = Seq::empty();
    let ghost mut rowner: Seq<(int, int)> = Seq::empty();
    let mut i: usize = 0;
    while i < servers.len()
        invariant
            i <= servers@.len(),
            owner.len() == tools@.len(),
            tools@.len() == total_tools(servers@.take(i as int)),
            resources@.len() == total_resources(servers@.take(i as int)),
            rowner.len() == resources@.len(),
            forall|k: int|
                0 <= k < resources@.len() ==> {
                    let (s, t) = #[trigger] rowner[k];
                    0 <= s < i && 0 <= t < servers@[s].1.resources@.len() && resource_prefixed(
                        servers@[s].0@,
                        servers@[s].1.resources@[t],
                        resources@[k],
                    )
                },
            forall|k1: int, k2: int|
                0 <= k1 < k2 < rowner.len() ==> (#[trigger] rowner[k1]).0 < (#[trigger] rowner[k2]).0
                    || (rowner[k1].0 == rowner[k2].0 && rowner[k1].1 < rowner[k2].1),
            forall|k: int|
                0 <= k < tools@.len() ==> {
                    let (s, t) = #[trigger] owner[k];
                    0 <= s < i && 0 <= t < servers@[s].1.tools@.len() && tool_prefixed(
                        servers@[s].0@,
                        servers@[s].1.tools@[t],
                        tools@[k],
                    )
                },
            forall|k1: int, k2: int|
                0 <= k1 < k2 < owner.len() ==> (#[trigger] owner[k1]).0 < (#[trigger] owner[k2]).0
                    || (owner[k1].0 == owner[k2].0 && owner[k1].1 < owner[k2].1),
        decreases servers@.len() - i,
    {
        let name = &servers[i].0;
        let caps = &servers[i].1;
        assert(servers@.take(i as int + 1).drop_last() =~= servers@.take(i as int));
        let ghost base = tools@.len();
        let mut t: usize = 0;
        while t < caps.tools.len()
            invariant
                i < servers@.len(),
                *caps == servers@[i as int].1,
                *name == servers@[i as int].0,
                t <= caps.tools@.len(),
                owner.len() == tools@.len(),
                tools@.len() == base + t,
                base == total_tools(servers@.take(i as int)),
                forall|k: int|
                    0 <= k < tools@.len() ==> {
                        let (s, u) = #[trigger] owner[k];
                        0 <= s <= i && 0 <= u < servers@[s].1.tools@.len() && tool_prefixed(
                            servers@[s].0@,
                            servers@[s].1.tools@[u],
                            tools@[k],
                        ) && (s == i ==> u < t)
                    },
                forall|k1: int, k2: int|
                    0 <= k1 < k2 < owner.len() ==> (#[trigger] owner[k1]).0 < (#[trigger] owner[k2]).0
                        || (owner[k1].0 == owner[k2].0 && owner[k1].1 < owner[k2].1),
            decreases caps.tools@.len() - t,
        {
            let tool = &caps.tools[t];
            let new_tool = Tool {
                name: cat3(name.as_str(), "/", tool.name.as_str()),
                description: prefix_description(name.as_str(), &tool.description),
                parameters: match &tool.parameters {
                    Some(p) => Some(p.copy()),
                    None => None,
                },
            };
            proof {
                reveal_strlit("/");
            }
            assert(new_tool.name@ =~= prefixed_name(name@, tool.name@));
            assert(tool_prefixed(name@, *tool, new_tool));
            let ghost before = tools@;
            tools.push(new_tool);
            proof {
                owner = owner.push((i as int, t as int));
                assert forall|k: int| 0 <= k < before.len() implies tools@[k] == before[k] by {}
            }
            t = t + 1;
        }
        let mut q: usize = 0;
        let ghost rbase = resources@.len();
        while q < caps.resources.len()
            invariant
                i < servers@.len(),
                *caps == servers@[i as int].1,
                *name == servers@[i as int].0,
                q <= caps.resources@.len(),
                resources@.len() == rbase + q,
                rbase == total_resources(servers@.take(i as int)),
                rowner.len() == resources@.len(),
                forall|k: int|
                    0 <= k < resources@.len() ==> {
                        let (s, u) = #[trigger] rowner[k];
                        0 <= s <= i && 0 <= u < servers@[s].1.resources@.len() && resource_prefixed(
                            servers@[s].0@,
                            servers@[s].1.resources@[u],
                            resources@[k],
                        ) && (s == i ==> u < q)
                    },
                forall|k1: int, k2: int|
                    0 <= k1 < k2 < rowner.len() ==> (#[trigger] rowner[k1]).0 < (#[trigger] rowner[k2]).0
                        || (rowner[k1].0 == rowner[k2].0 && rowner[k1].1 < rowner[k2].1),
            decreases caps.resources@.len() - q,
        {
            let res = &caps.resources[q];
            let new_res = Resource {
                name: cat3(name.as_str(), "/", res.name.as_str()),
                description: prefix_description(name.as_str(), &res.description),
            };
            proof {
                reveal_strlit("/");
            }
            assert(new_res.name@ =~= prefixed_name(name@, res.name@));
            assert(resource_prefixed(name@, *res, new_res));
            let ghost before = resources@;
            resources.push(new_res);
            proof {
                rowner = rowner.push((i as int, q as int));
                assert forall|k: int| 0 <= k < before.len() implies resources@[k] == before[k] by {}
            }
            q = q + 1;
        }
        i = i + 1;
    }
    assert(servers@.take(servers@.len() as int) =~= servers@);
    ServerCapabilities { tools, resources }
}

/// The number of tools of all servers.
pub open spec fn total_tools(servers: Seq<(String, ServerCapabilities)>) -> nat
    decreases servers.len(),
{
    if servers.len() == 0 {
        0
    } else {
        total_tools(servers.drop_last()) + servers.last().1.tools@.len()
    }
}

/// The number of resources of all servers.
pub open spec fn total_resources(servers: Seq<(String, ServerCapabilities)>) -> nat
    decreases servers.len(),
{
    if servers.len() == 0 {
        0
    } else {
        total_resources(servers.drop_last()) + servers.last().1.resources@.len()
    }
}

/// Whether a server found under `name` is ready: it must exist and have
/// answered `initialize`.
pub fn check_ready(name: &str, found: bool, initialized: bool) -> (r: Result<(), String>)
    ensures
        !found ==> (r matches Err(e) && e@ == "Server '"@ + name@ + "' not found."@),
        found && !initialized ==> (r matches Err(e) && e@ == "Server '"@ + name@
            + "' is not initialized or ready."@),
        found && initialized ==> r is Ok,
{
    if !found {
        Err(cat3("Server '", name, "' not found."))
    } else if !initialized {
        Err(cat3("Server '", name, "' is not initialized or ready."))
    } else {
        Ok(())
    }
}

/// Whether the capabilities list a tool named `tool`.
pub fn supports_tool(caps: Option<&ServerCapabilities>, tool: &str) -> (b: bool)
    ensures
        b == (caps matches Some(c) && exists|i: int| 0 <= i < c.tools@.len() && (#[trigger] c.tools@[i]).name@ == tool@),
{
    match caps {
        None => false,
        Some(c) => {
            let mut i: usize = 0;
            while i < c.tools.len()
                invariant
                    caps == Some(c),
                    i <= c.tools@.len(),
                    forall|k: int| 0 <= k < i ==> (#[trigger] c.tools@[k]).name@ != tool@,
                decreases c.tools@.len() - i,
            {
                if str_eq(c.tools[i].name.as_str(), tool) {
                    assert(c.tools@[i as int].name@ == tool@);
                    return true;
                }
                i = i + 1;
            }
            false
        },
    }
}

/// Whether the capabilities list a resource named `resource`.
pub fn supports_resource(caps: Option<&ServerCapabilities>, resource: &str) -> (b: bool)
    ensures
        b == (caps matches Some(c) && exists|i: int| 0 <= i < c.resources@.len() && (#[trigger] c.resources@[i]).name@ == resource@),
{
    match caps {
        None => false,
        Some(c) => {
            let mut i: usize = 0;
            while i < c.resources.len()
                invariant
                    caps == Some(c),
                    i <= c.resources@.len(),
                    forall|k: int| 0 <= k < i ==> (#[trigger] c.resources@[k]).name@ != resource@,
                decreases c.resources@.len() - i,
            {
                if str_eq(c.resources[i].name.as_str(), resource) {
                    assert(c.resources@[i as int].name@ == resource@);
                    return true;
                }
                i = i + 1;
            }
            false
        },
    }
}

/// The error for a tool the server does not offer.
pub fn unsupported_tool_error(server: &str, tool: &str) -> (e: String)
    ensures
        e@ == "Server '"@ + server@ + "' does not support tool '"@ + tool@ + "' or is not initialized."@,
{
    cat5("Server '", server, "' does not support tool '", tool, "' or is not initialized.")
}

/// The error for a resource the server does not offer.
pub fn unsupported_resource_error(server: &str, resource: &str) -> (e: String)
    ensures
        e@ == "Server '"@ + server@ + "' does not support resource '"@ + resource@
            + "' or is not initialized."@,
{
    cat5("Server '", server, "' does not support resource '", resource, "' or is not initialized.")
}

/// A JSON-RPC error as the host reports a failed tool call.
pub fn tool_error_text(e: &JsonRpcError) -> (r: String)
    ensures
        r@ == "Tool execution error ["@ + dec_signed(e.code as int) + "]: "@ + e.message@,
{
    let code = i64_to_string(e.code);
    cat4("Tool execution error [", code.as_str(), "]: ", e.message.as_str())
}

/// A JSON-RPC error as the host reports a failed resource read.
pub fn resource_error_text(e: &JsonRpcError) -> (r: String)
    ensures
        r@ == "Resource retrieval error ["@ + dec_signed(e.code as int) + "]: "@ + e.message@,
{
    let code = i64_to_string(e.code);
    cat4("Resource retrieval error [", code.as_str(), "]: ", e.message.as_str())
}

/// The `shutdown` request sent to every server when the host stops.
pub fn shutdown_request(id: u64) -> (r: Request)
    ensures
        numbered(r, id, "shutdown"@),
        r.params is None,
{
    Request::new(Some(json_u64(id)), String::from_str("shutdown"), None)
}

/// The `exit` message that follows it, without an id.
pub fn exit_request() -> (r: Request)
    ensures
        r.jsonrpc@ == "2.0"@,
        r.id is None,
        r.method@ == "exit"@,
        r.params is None,
{
    Request::new(None, String::from_str("exit"), None)
}

/// Whether the tool `tool` of the server runs without asking.
pub fn is_auto_execute(config: &McpServerConfig, tool: &str) -> (b: bool)
    ensures
        b == strings_view(config.auto_execute@).contains(tool@),
{
    crate::mcp::servers::memory_records::contains_string(&config.auto_execute, tool)
}

/// Adds `tool` to the auto-execute list of the first server named `server`,
/// unless it is there already; says whether it was added. A missing server
/// is an error.
pub fn add_to_auto_execute(servers: &mut Vec<McpServerConfig>, server: &str, tool: &str) -> (r: Result<bool, String>)
    ensures
        (r is Err) == (forall|i: int| 0 <= i < old(servers)@.len() ==> (#[trigger] old(servers)@[i]).name@ != server@),
        r matches Err(e) ==> e@ == "Server '"@ + server@ + "' not found in config"@ && final(servers)@ == old(servers)@,
        r matches Ok(added) ==> exists|i: int|
            0 <= i < old(servers)@.len() && (#[trigger] old(servers)@[i]).name@ == server@
                && (forall|j: int| 0 <= j < i ==> (#[trigger] old(servers)@[j]).name@ != server@)
                && final(servers)@.len() == old(servers)@.len()
                && (forall|j: int| 0 <= j < old(servers)@.len() && j != i ==> #[trigger] final(servers)@[j] == old(servers)@[j])
                && added == !strings_view(old(servers)@[i].auto_execute@).contains(tool@)
                && strings_view(final(servers)@[i].auto_execute@) == if added {
                    strings_view(old(servers)@[i].auto_execute@).push(tool@)
                } else {
                    strings_view(old(servers)@[i].auto_execute@)
                }
                && final(servers)@[i].name == old(servers)@[i].name
                && final(servers)@[i].enabled == old(servers)@[i].enabled
                && final(servers)@[i].command == old(servers)@[i].command
                && final(servers)@[i].args == old(servers)@[i].args
                && final(servers)@[i].env == old(servers)@[i].env
                && final(servers)@[i].transport == old(servers)@[i].transport,
{
    let n = servers.len();
    let mut i: usize = 0;
    while i < n
        invariant
            n == servers@.len(),
            servers@ == old(servers)@,
            i <= n,
            forall|j: int| 0 <= j < i ==> (#[trigger] servers@[j]).name@ != server@,
        decreases n - i,
    {
        if str_eq(servers[i].name.as_str(), server) {
            let mut cfg = servers.remove(i);
            let present = is_auto_execute(&cfg, tool);
            if !present {
                let ghost before = cfg.auto_execute@;
                cfg.auto_execute.push(String::from_str(tool));
                assert(strings_view(cfg.auto_execute@) =~= strings_view(before).push(tool@));
            }
            servers.insert(i, cfg);
            assert(forall|j: int| 0 <= j < i ==> old(servers)@[j] == servers@[j]);
            assert(forall|j: int| i < j < n ==> old(servers)@[j] == servers@[j]);
            return Ok(!present);
        }
        i = i + 1;
    }
    Err(cat3("Server '", server, "' not found in config"))
}

/// Whether a server named `filesystem` is configured.
pub fn has_filesystem_server(configs: &Vec<McpServerConfig>) -> (b: bool)
    ensures
        b == exists|i: int| 0 <= i < configs@.len() && (#[trigger] configs@[i]).name@ == "filesystem"@,
{
    let mut i: usize = 0;
    while i < configs.len()
        invariant
            i <= configs@.len(),
            forall|k: int| 0 <= k < i ==> (#[trigger] configs@[k]).name@ != "filesystem"@,
        decreases configs@.len() - i,
    {
        if str_eq(configs[i].name.as_str(), "filesystem") {
            return true;
        }
        i = i + 1;
    }
    false
}

/// The report of the `current_directory` resource: its `path`, or `unknown`.
pub fn current_directory_message(value: &JsonValue) -> (r: String)
    ensures
        r@ == "Current directory: "@ + match get_str(value@, "path"@) {
            Some(p) => p,
            None => "unknown"@,
        },
{
    match value.get("path") {
        Some(p) => match p.as_str() {
            Some(s) => cat2("Current directory: ", s),
            None => cat2("Current directory: ", "unknown"),
        },
        None => cat2("Current directory: ", "unknown"),
    }
}

} // verus!
