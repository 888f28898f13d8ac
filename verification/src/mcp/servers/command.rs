//! The command server: which program a tool call runs, with which
//! arguments, directory and environment, and how each request and each
//! outcome is answered.
//!
//! Running the program and reading the machine's details are left to the
//! caller, which hands the outcome back to [`finish_command`] and the other
//! answering functions.

pub mod main;

use vstd::prelude::*;
use crate::json::{get_str, json_get, json_i64, json_u64, json_object, json_str, member, members_view, Json, JsonValue};
use crate::mcp::framing::{line_text, utf8_lossy};
use crate::mcp::rpc::{Request, Response};
use crate::mcp::servers::memory::{answer_id, arg_or_empty, arg_text, tool_args};
use crate::mcp::servers::protocol::{
    arg_strings, arg_strings_spec, error_response, initialize_result, initialize_result_json, is_error,
    is_result, replies, request_id, resource_views, result_response, tool_names, tool_views, Reply, ResourceSpec,
    ToolSpec,
};
use crate::text::{cat2, dec, dec_signed, str_eq, trim, trim_str};

verus! {

/// What a finished command gave back.
pub struct CommandResult {
    pub exit_code: i32,
    pub stdout: String,
    pub stderr: String,
    pub success: bool,
}

/// A command's outcome as JSON.
pub open spec fn command_result_json(c: CommandResult) -> Json {
    Json::Object(
        seq![
            ("exit_code"@, Json::Number(dec_signed(c.exit_code as int))),
            ("stdout"@, Json::Str(c.stdout@)),
            ("stderr"@, Json::Str(c.stderr@)),
            ("success"@, Json::Bool(c.success)),
        ],
    )
}

/// The outcome of a finished process: its exit code, or -1 when a signal
/// ended it, and its output decoded as `String::from_utf8_lossy` does.
pub fn command_result(code: Option<i32>, success: bool, stdout: &[u8], stderr: &[u8]) -> (r: CommandResult)
    ensures
        r.exit_code == match code {
            Some(c) => c,
            None => -1i32,
        },
        r.success == success,
        r.stdout@ == line_text(stdout@),
        r.stderr@ == line_text(stderr@),
{
    let exit_code: i32 = match code {
        Some(c) => c,
        None => -1,
    };
    CommandResult { exit_code, stdout: utf8_lossy(stdout), stderr: utf8_lossy(stderr), success }
}

/// A command's outcome as JSON (see [`command_result_json`]).
pub fn command_result_to_json(c: &CommandResult) -> (r: JsonValue)
    ensures
        r@ == command_result_json(*c),
{
    let m = vec![
        member("exit_code", json_i64(c.exit_code as i64)),
        member("stdout", json_str(c.stdout.as_str())),
        member("stderr", json_str(c.stderr.as_str())),
        member("success", JsonValue::Bool(c.success)),
    ];
    assert(members_view(m@) =~= seq![
        ("exit_code"@, Json::Number(dec_signed(c.exit_code as int))),
        ("stdout"@, Json::Str(c.stdout@)),
        ("stderr"@, Json::Str(c.stderr@)),
        ("success"@, Json::Bool(c.success)),
    ]);
    json_object(m)
}

/// A program to run.
pub struct CommandPlan {
    pub program: String,
    pub args: Vec<String>,
    pub working_dir: Option<String>,
    /// Variables set for the program, in order.
    pub env: Vec<(String, String)>,
    /// How many milliseconds the program may run before it is stopped; 0
    /// for no limit.
    pub timeout_ms: u64,
}

/// The mathematical form of a [`CommandPlan`].
pub struct PlanView {
    pub program: Seq<char>,
    pub args: Seq<Seq<char>>,
    pub working_dir: Option<Seq<char>>,
    pub env: Seq<(Seq<char>, Seq<char>)>,
    pub timeout_ms: u64,
}

/// Pairs of texts, as mathematical texts.
pub open spec fn pairs_view(v: Seq<(String, String)>) -> Seq<(Seq<char>, Seq<char>)> {
    v.map_values(|p: (String, String)| (p.0@, p.1@))
}

impl View for CommandPlan {
    type V = PlanView;

    open spec fn view(&self) -> PlanView {
        PlanView {
            program: self.program@,
            args: self.args@.map_values(|s: String| s@),
            working_dir: match self.working_dir {
                Some(d) => Some(d@),
                None => None,
            },
            env: pairs_view(self.env@),
            timeout_ms: self.timeout_ms,
        }
    }
}

/// The members of an object whose values are strings, with those strings.
pub open spec fn string_members(ms: Seq<(Seq<char>, Json)>) -> Seq<(Seq<char>, Seq<char>)>
    decreases ms.len(),
{
    if ms.len() == 0 {
        Seq::empty()
    } else {
        let rest = string_members(ms.drop_last());
        match ms.last().1 {
            Json::Str(s) => rest.push((ms.last().0, s)),
            _ => rest,
        }
    }
}

/// The variables of `args.environment`: its string members; none when it
/// is missing or not an object.
pub open spec fn environment_spec(args: Json) -> Seq<(Seq<char>, Seq<char>)> {
    match json_get(args, "environment"@) {
        Some(Json::Object(ms)) => string_members(ms),
        _ => Seq::empty(),
    }
}

/// The plan of `execute_command`: the program `command` with the strings
/// of `args.arguments`.
pub open spec fn command_plan_spec(command: Seq<char>, args: Json) -> PlanView {
    PlanView {
        program: command,
        args: arg_strings_spec(args, "arguments"@),
        working_dir: get_str(args, "working_directory"@),
        env: environment_spec(args),
        timeout_ms: 0,
    }
}

/// The plan of `execute_shell`: `sh -c command`.
pub open spec fn shell_plan_spec(command: Seq<char>, args: Json) -> PlanView {
    PlanView {
        program: "sh"@,
        args: seq!["-c"@, command],
        working_dir: get_str(args, "working_directory"@),
        env: environment_spec(args),
        timeout_ms: 0,
    }
}

/// The variables of `args.environment` (see [`environment_spec`]).
pub fn environment_of(args: &JsonValue) -> (r: Vec<(String, String)>)
    ensures
        pairs_view(r@) == environment_spec(args@),
{
    let mut r: Vec<(String, String)> = Vec::new();
    match args.get("environment") {
        Some(JsonValue::Object(ms)) => {
            proof {
                crate::json::lemma_object_view(*ms);
            }
            let ghost mv = members_view(ms@);
            let mut i: usize = 0;
            while i < ms.len()
                invariant
                    i <= ms@.len(),
                    mv == members_view(ms@),
                    pairs_view(r@) == string_members(mv.take(i as int)),
                decreases ms@.len() - i,
            {
                let ghost t = mv.take(i as int + 1);
                assert(t.drop_last() =~= mv.take(i as int));
                assert(t.last() == mv[i as int]);
                match &ms[i].1 {
                    JsonValue::Str(s) => {
                        r.push((ms[i].0.clone(), s.clone()));
                        assert(pairs_view(r@) =~= string_members(t));
                    },
                    _ => {
                        assert(pairs_view(r@) =~= string_members(t));
                    },
                }
                i = i + 1;
            }
            assert(mv.take(ms@.len() as int) =~= mv);
        },
        _ => {},
    }
    r
}

/// The plan of `execute_command` for `command` (see [`command_plan_spec`]).
pub fn command_plan(command: String, args: &JsonValue) -> (r: CommandPlan)
    ensures
        r@ == command_plan_spec(command@, args@),
{
    let a = arg_strings(args, "arguments");
    let wd = crate::mcp::servers::protocol::arg_str(args, "working_directory");
    let env = environment_of(args);
    let r = CommandPlan { program: command, args: a, working_dir: wd, env, timeout_ms: 0 };
    assert(r@.args =~= crate::text::strings_view(a@));
    r
}

/// The plan of `execute_shell` for `command` (see [`shell_plan_spec`]).
pub fn shell_plan(command: String, args: &JsonValue) -> (r: CommandPlan)
    ensures
        r@ == shell_plan_spec(command@, args@),
{
    let wd = crate::mcp::servers::protocol::arg_str(args, "working_directory");
    let env = environment_of(args);
    let r = CommandPlan {
        program: String::from_str("sh"),
        args: vec![String::from_str("-c"), command],
        working_dir: wd,
        env,
        timeout_ms: 0,
    };
    proof {
        reveal_strlit("sh");
        reveal_strlit("-c");
    }
    assert(r@.args =~= seq!["-c"@, command@]);
    r
}

/// What the server does next after a request.
pub enum CommandStep {
    /// Send this answer.
    Reply(Response),
    /// Run `plan` and answer `id` with [`finish_command`]; `shell` tells a
    /// shell command from a plain one.
    Run { id: JsonValue, plan: CommandPlan, shell: bool },
    /// Answer `id` with the machine's details ([`os_info_reply`]).
    OsInfo(JsonValue),
    /// Answer `id` with the process's environment ([`environment_reply`]).
    Environment(JsonValue),
    /// Stop serving.
    Exit,
}

/// The mathematical form of a [`CommandStep`], its id aside.
pub enum CommandStepSpec {
    Reply(Reply),
    Run(PlanView, bool),
    OsInfo,
    Environment,
    Exit,
}

/// `s` is the step `spec`, answering `id`.
pub open spec fn command_step_is(s: CommandStep, id: Json, spec: CommandStepSpec) -> bool {
    match spec {
        CommandStepSpec::Reply(r) => s matches CommandStep::Reply(resp) && replies(resp, id, r),
        CommandStepSpec::Run(p, sh) => s matches CommandStep::Run { id: i, plan, shell } && i@ == id && plan@ == p
            && shell == sh,
        CommandStepSpec::OsInfo => s matches CommandStep::OsInfo(i) && i@ == id,
        CommandStepSpec::Environment => s matches CommandStep::Environment(i) && i@ == id,
        CommandStepSpec::Exit => s is Exit,
    }
}

/// The error for a tool call without a command.
pub open spec fn missing_command() -> CommandStepSpec {
    CommandStepSpec::Reply(Reply::Error(-32602i64, "Missing required parameter: command"@))
}

/// What a call of the tool `tool` with `args` comes to: a command is owed
/// a non-empty `command` text.
pub open spec fn command_tool_step(tool: Seq<char>, args: Json) -> CommandStepSpec {
    let command = arg_or_empty(args, "command"@);
    if tool == "execute_command"@ {
        if command.len() == 0 {
            missing_command()
        } else {
            CommandStepSpec::Run(command_plan_spec(command, args), false)
        }
    } else if tool == "execute_shell"@ {
        if command.len() == 0 {
            missing_command()
        } else {
            CommandStepSpec::Run(shell_plan_spec(command, args), true)
        }
    } else {
        CommandStepSpec::Reply(Reply::Error(-32601i64, "Tool not found: "@ + tool))
    }
}

/// What a request for the resource `name` comes to.
pub open spec fn command_resource_step(name: Seq<char>) -> CommandStepSpec {
    if name == "os_info"@ {
        CommandStepSpec::OsInfo
    } else if name == "environment_variables"@ {
        CommandStepSpec::Environment
    } else {
        CommandStepSpec::Reply(Reply::Error(-32601i64, "Unknown resource: "@ + name))
    }
}

/// The names of the command server's tools.
pub open spec fn command_tool_names() -> Seq<Seq<char>> {
    seq!["execute_command"@, "execute_shell"@]
}

/// A schema property of type `ty` with its description.
pub open spec fn property_json(ty: Seq<char>, description: Seq<char>) -> Json {
    Json::Object(seq![("type"@, Json::Str(ty)), ("description"@, Json::Str(description))])
}

/// A schema property of type `ty` (see [`property_json`]).
fn property(ty: &str, description: &str) -> (r: JsonValue)
    ensures
        r@ == property_json(ty@, description@),
{
    let m = vec![member("type", json_str(ty)), member("description", json_str(description))];
    assert(members_view(m@) =~= seq![("type"@, Json::Str(ty@)), ("description"@, Json::Str(description@))]);
    json_object(m)
}

/// The `environment` property of the tools' schemas.
pub open spec fn environment_property_json() -> Json {
    Json::Object(
        seq![
            ("type"@, Json::Str("object"@)),
            ("description"@, Json::Str("Environment variables for the command"@)),
            ("additionalProperties"@, Json::Object(seq![("type"@, Json::Str("string"@))])),
        ],
    )
}

/// The `environment` property (see [`environment_property_json`]).
fn environment_property() -> (r: JsonValue)
    ensures
        r@ == environment_property_json(),
{
    let inner = vec![member("type", json_str("string"))];
    assert(members_view(inner@) =~= seq![("type"@, Json::Str("string"@))]);
    let extra = json_object(inner);
    let m = vec![
        member("type", json_str("object")),
        member("description", json_str("Environment variables for the command")),
        member("additionalProperties", extra),
    ];
    assert(members_view(m@) =~= seq![
        ("type"@, Json::Str("object"@)),
        ("description"@, Json::Str("Environment variables for the command"@)),
        ("additionalProperties"@, Json::Object(seq![("type"@, Json::Str("string"@))])),
    ]);
    json_object(m)
}

/// The `timeout_ms` property of the stand-alone server's schemas.
pub open spec fn timeout_property_json() -> Json {
    Json::Object(
        seq![
            ("type"@, Json::Str("integer"@)),
            ("description"@, Json::Str("Maximum execution time in milliseconds (0 for no timeout)"@)),
            ("default"@, Json::Number(dec(0))),
        ],
    )
}

/// The `timeout_ms` property (see [`timeout_property_json`]).
fn timeout_property() -> (r: JsonValue)
    ensures
        r@ == timeout_property_json(),
{
    let m = vec![
        member("type", json_str("integer")),
        member("description", json_str("Maximum execution time in milliseconds (0 for no timeout)")),
        member("default", json_u64(0)),
    ];
    assert(members_view(m@) =~= seq![
        ("type"@, Json::Str("integer"@)),
        ("description"@, Json::Str("Maximum execution time in milliseconds (0 for no timeout)"@)),
        ("default"@, Json::Number(dec(0))),
    ]);
    json_object(m)
}

/// The `arguments` property of `execute_command`'s schema.
pub open spec fn arguments_property_json() -> Json {
    Json::Object(
        seq![
            ("type"@, Json::Str("array"@)),
            ("items"@, Json::Object(seq![("type"@, Json::Str("string"@))])),
            ("description"@, Json::Str("Arguments to pass to the command"@)),
            ("default"@, Json::Array(Seq::empty())),
        ],
    )
}

/// `props`, with the `timeout_ms` property after them when `timeout` is set.
pub open spec fn with_timeout_property(props: Seq<(Seq<char>, Json)>, timeout: bool) -> Seq<(Seq<char>, Json)> {
    if timeout {
        props.push(("timeout_ms"@, timeout_property_json()))
    } else {
        props
    }
}

/// A command tool's schema: an object with the properties `props` that
/// requires `command`.
pub open spec fn command_schema_json(props: Seq<(Seq<char>, Json)>) -> Json {
    Json::Object(
        seq![
            ("type"@, Json::Str("object"@)),
            ("properties"@, Json::Object(props)),
            ("required"@, Json::Array(seq![Json::Str("command"@)])),
        ],
    )
}

/// The tools of a command server, names, descriptions and schemas, the
/// schemas with a `timeout_ms` property when `timeout` is set.
pub open spec fn command_tool_views(timeout: bool) -> Seq<(Seq<char>, Seq<char>, Json)> {
    seq![
        (
            "execute_command"@,
            "Executes a system command and returns the result"@,
            command_schema_json(
                with_timeout_property(
                    seq![
                        ("command"@, property_json("string"@, "The command to execute"@)),
                        ("arguments"@, arguments_property_json()),
                        ("working_directory"@, property_json("string"@, "Working directory for the command (optional)"@)),
                        ("environment"@, environment_property_json()),
                    ],
                    timeout,
                ),
            ),
        ),
        (
            "execute_shell"@,
            "Executes a shell command using the default system shell"@,
            command_schema_json(
                with_timeout_property(
                    seq![
                        ("command"@, property_json("string"@, "The shell command to execute"@)),
                        ("working_directory"@, property_json("string"@, "Working directory for the command (optional)"@)),
                        ("environment"@, environment_property_json()),
                    ],
                    timeout,
                ),
            ),
        ),
    ]
}

/// The resources of the command server: names and descriptions.
pub open spec fn command_resource_views() -> Seq<(Seq<char>, Seq<char>)> {
    seq![
        ("os_info"@, "Gets information about the operating system"@),
        ("environment_variables"@, "Gets the current environment variables"@),
    ]
}

/// The tools of a command server (see [`command_tool_views`]).
pub(crate) fn command_tools_with(timeout: bool) -> (r: Vec<ToolSpec>)
    ensures
        tool_names(r@) == command_tool_names(),
        tool_views(r@) == command_tool_views(timeout),
{
    let items = vec![member("type", json_str("string"))];
    assert(members_view(items@) =~= seq![("type"@, Json::Str("string"@))]);
    let none = JsonValue::Array(Vec::new());
    assert(none@->Array_0 =~= Seq::<Json>::empty());
    let arguments_members = vec![
        member("type", json_str("array")),
        member("items", json_object(items)),
        member("description", json_str("Arguments to pass to the command")),
        member("default", none),
    ];
    assert(members_view(arguments_members@) =~~= arguments_property_json()->Object_0);
    let arguments = json_object(arguments_members);
    let mut command_props = vec![
        member("command", property("string", "The command to execute")),
        member("arguments", arguments),
        member("working_directory", property("string", "Working directory for the command (optional)")),
        member("environment", environment_property()),
    ];
    let mut shell_props = vec![
        member("command", property("string", "The shell command to execute")),
        member("working_directory", property("string", "Working directory for the command (optional)")),
        member("environment", environment_property()),
    ];
    if timeout {
        command_props.push(member("timeout_ms", timeout_property()));
        shell_props.push(member("timeout_ms", timeout_property()));
    }
    let ghost views = command_tool_views(timeout);
    assert(members_view(command_props@) =~~= views[0].2->Object_0[1].1->Object_0);
    assert(members_view(shell_props@) =~~= views[1].2->Object_0[1].1->Object_0);
    let req_c = JsonValue::Array(vec![json_str("command")]);
    assert(req_c@->Array_0 =~= seq![Json::Str("command"@)]);
    let req_s = JsonValue::Array(vec![json_str("command")]);
    assert(req_s@->Array_0 =~= seq![Json::Str("command"@)]);
    let ghost cp = members_view(command_props@);
    let ghost sp = members_view(shell_props@);
    let cm = vec![
        member("type", json_str("object")),
        member("properties", json_object(command_props)),
        member("required", req_c),
    ];
    assert(members_view(cm@) =~= seq![
        ("type"@, Json::Str("object"@)),
        ("properties"@, Json::Object(cp)),
        ("required"@, Json::Array(seq![Json::Str("command"@)])),
    ]);
    let command_schema = json_object(cm);
    assert(command_schema@ =~~= views[0].2);
    let sm = vec![
        member("type", json_str("object")),
        member("properties", json_object(shell_props)),
        member("required", req_s),
    ];
    assert(members_view(sm@) =~= seq![
        ("type"@, Json::Str("object"@)),
        ("properties"@, Json::Object(sp)),
        ("required"@, Json::Array(seq![Json::Str("command"@)])),
    ]);
    let shell_schema = json_object(sm);
    assert(shell_schema@ =~~= views[1].2);
    let r = vec![
        ToolSpec {
            name: String::from_str("execute_command"),
            description: String::from_str("Executes a system command and returns the result"),
            schema: command_schema,
        },
        ToolSpec {
            name: String::from_str("execute_shell"),
            description: String::from_str("Executes a shell command using the default system shell"),
            schema: shell_schema,
        },
    ];
    assert(tool_views(r@) =~~= views);
    assert(tool_names(r@) =~= command_tool_names());
    r
}

/// The tools of the command server.
pub fn command_tools() -> (r: Vec<ToolSpec>)
    ensures
        tool_names(r@) == command_tool_names(),
        tool_views(r@) == command_tool_views(false),
{
    command_tools_with(false)
}

/// The resources of the command server.
pub fn command_resources() -> (r: Vec<ResourceSpec>)
    ensures
        resource_views(r@) == command_resource_views(),
{
    let r = vec![
        ResourceSpec {
            name: String::from_str("os_info"),
            description: String::from_str("Gets information about the operating system"),
        },
        ResourceSpec {
            name: String::from_str("environment_variables"),
            description: String::from_str("Gets the current environment variables"),
        },
    ];
    assert(resource_views(r@) =~= command_resource_views());
    r
}

/// What the command server does with `request`.
pub fn handle_command_request(request: &Request) -> (s: CommandStep)
    ensures
        request.method@ == "initialize"@ ==> (s matches CommandStep::Reply(r) && exists|
            tools: Seq<ToolSpec>,
            resources: Seq<ResourceSpec>,
        |
            tool_views(tools) == command_tool_views(false) && resource_views(resources) == command_resource_views()
                && #[trigger] is_result(
                r,
                answer_id(request),
                initialize_result_json("command-mcp"@, "1.0.0"@, tools, "parameters"@, resources, true),
            )),
        request.method@ == "mcp/tool/execute"@ ==> command_step_is(
            s,
            answer_id(request),
            match request.params {
                None => CommandStepSpec::Reply(Reply::Error(-32602i64, "Missing parameters for tool execution"@)),
                Some(p) => command_tool_step(arg_or_empty(p@, "name"@), tool_args(p@)),
            },
        ),
        request.method@ == "mcp/resource/get"@ ==> command_step_is(
            s,
            answer_id(request),
            match request.params {
                None => CommandStepSpec::Reply(Reply::Error(-32602i64, "Missing parameters for resource get"@)),
                Some(p) => command_resource_step(arg_or_empty(p@, "name"@)),
            },
        ),
        request.method@ == "shutdown"@ ==> command_step_is(
            s,
            answer_id(request),
            CommandStepSpec::Reply(Reply::Result(Json::Object(Seq::empty()))),
        ),
        request.method@ == "exit"@ ==> s is Exit,
        request.method@ != "initialize"@ && request.method@ != "mcp/tool/execute"@ && request.method@
            != "mcp/resource/get"@ && request.method@ != "shutdown"@ && request.method@ != "exit"@
            ==> command_step_is(
            s,
            answer_id(request),
            CommandStepSpec::Reply(Reply::Error(-32601i64, "Method not found: "@ + request.method@)),
        ),
{
    proof {
        reveal_strlit("initialize");
        reveal_strlit("mcp/tool/execute");
        reveal_strlit("mcp/resource/get");
        reveal_strlit("shutdown");
        reveal_strlit("exit");
        reveal_strlit("execute_command");
        reveal_strlit("execute_shell");
        reveal_strlit("os_info");
        reveal_strlit("environment_variables");
        assert("mcp/tool/execute"@[4] != "mcp/resource/get"@[4]);
    }
    let id = request_id(request);
    let m = request.method.as_str();
    if str_eq(m, "initialize") {
        let tools = command_tools();
        let resources = command_resources();
        let result = initialize_result("command-mcp", "1.0.0", &tools, "parameters", &resources, true);
        let r = result_response(id, result);
        assert(is_result(r, answer_id(request), initialize_result_json("command-mcp"@, "1.0.0"@, tools@, "parameters"@, resources@, true)));
        CommandStep::Reply(r)
    } else if str_eq(m, "mcp/tool/execute") {
        match &request.params {
            None => CommandStep::Reply(error_response(id, -32602, String::from_str("Missing parameters for tool execution"), None)),
            Some(p) => {
                let name = arg_text(p, "name");
                let args = match p.get("args") {
                    Some(a) => a.copy(),
                    None => json_object(Vec::new()),
                };
                assert(args@ == tool_args(p@)) by {
                    assert(members_view(Seq::<(String, JsonValue)>::empty()) =~= Seq::<(Seq<char>, Json)>::empty());
                }
                let n = name.as_str();
                let shell = str_eq(n, "execute_shell");
                if str_eq(n, "execute_command") || shell {
                    let command = arg_text(&args, "command");
                    if command.as_str().unicode_len() == 0 {
                        proof {
                            reveal_strlit("Missing required parameter: command");
                        }
                        CommandStep::Reply(error_response(id, -32602, String::from_str("Missing required parameter: command"), None))
                    } else if shell {
                        CommandStep::Run { id, plan: shell_plan(command, &args), shell: true }
                    } else {
                        CommandStep::Run { id, plan: command_plan(command, &args), shell: false }
                    }
                } else {
                    CommandStep::Reply(error_response(id, -32601, cat2("Tool not found: ", n), None))
                }
            },
        }
    } else if str_eq(m, "mcp/resource/get") {
        match &request.params {
            None => CommandStep::Reply(error_response(id, -32602, String::from_str("Missing parameters for resource get"), None)),
            Some(p) => {
                let name = arg_text(p, "name");
                let n = name.as_str();
                if str_eq(n, "os_info") {
                    CommandStep::OsInfo(id)
                } else if str_eq(n, "environment_variables") {
                    CommandStep::Environment(id)
                } else {
                    CommandStep::Reply(error_response(id, -32601, cat2("Unknown resource: ", n), None))
                }
            },
        }
    } else if str_eq(m, "shutdown") {
        let r = result_response(id, json_object(Vec::new()));
        assert(members_view(Seq::<(String, JsonValue)>::empty()) =~= Seq::<(Seq<char>, Json)>::empty());
        CommandStep::Reply(r)
    } else if str_eq(m, "exit") {
        CommandStep::Exit
    } else {
        CommandStep::Reply(error_response(id, -32601, cat2("Method not found: ", m), None))
    }
}

/// The message a failed start of a program is answered with.
pub open spec fn start_failure(shell: bool, reason: Seq<char>) -> Seq<char> {
    if shell {
        "Failed to execute shell command: "@ + reason
    } else {
        "Failed to execute command: "@ + reason
    }
}

/// The answer to `id` once the program ran (`Ok`) or could not be started
/// (`Err` with the reason).
pub fn finish_command(id: JsonValue, shell: bool, outcome: Result<CommandResult, String>) -> (r: Response)
    ensures
        match outcome {
            Ok(c) => is_result(r, id@, command_result_json(c)),
            Err(e) => is_error(r, id@, -32000i64, start_failure(shell, e@)),
        },
{
    match outcome {
        Ok(c) => {
            let j = command_result_to_json(&c);
            result_response(id, j)
        },
        Err(e) => {
            let msg = if shell {
                cat2("Failed to execute shell command: ", e.as_str())
            } else {
                cat2("Failed to execute command: ", e.as_str())
            };
            error_response(id, -32000, msg, None)
        },
    }
}

/// The message of a command stopped after `ms` milliseconds.
pub open spec fn timeout_text(ms: u64) -> Seq<char> {
    "Command timed out after "@ + dec(ms as nat) + " ms"@
}

/// The answer to `id` when the program ran past its limit of `ms`
/// milliseconds and was stopped.
pub fn timeout_reply(id: JsonValue, ms: u64) -> (r: Response)
    ensures
        is_error(r, id@, -32000i64, timeout_text(ms)),
{
    let n = crate::text::u64_to_string(ms);
    error_response(id, -32000, crate::text::cat3("Command timed out after ", n.as_str(), " ms"), None)
}

/// The name the server gives an operating system, from Rust's name for it.
pub open spec fn os_type_spec(os: Seq<char>) -> Seq<char> {
    if os == "linux"@ {
        "Linux"@
    } else if os == "windows"@ {
        "Windows"@
    } else if os == "macos"@ {
        "macOS"@
    } else {
        "Unknown"@
    }
}

/// The name the server gives an operating system (see [`os_type_spec`]).
pub fn os_type(os: &str) -> (r: String)
    ensures
        r@ == os_type_spec(os@),
{
    if str_eq(os, "linux") {
        String::from_str("Linux")
    } else if str_eq(os, "windows") {
        String::from_str("Windows")
    } else if str_eq(os, "macos") {
        String::from_str("macOS")
    } else {
        String::from_str("Unknown")
    }
}

/// What a `uname` call tells: its output, trimmed, or `Unknown` when it
/// could not run.
pub fn uname_text(output: Option<Vec<u8>>) -> (r: String)
    ensures
        r@ == match output {
            Some(b) => trim(line_text(b@)),
            None => "Unknown"@,
        },
{
    match output {
        Some(b) => {
            let s = utf8_lossy(b.as_slice());
            trim_str(s.as_str())
        },
        None => String::from_str("Unknown"),
    }
}

/// The machine's details as JSON.
pub open spec fn os_info_json(os_type: Seq<char>, release: Seq<char>, version: Seq<char>, arch: Seq<char>, family: Seq<char>) -> Json {
    Json::Object(
        seq![
            ("os_type"@, Json::Str(os_type)),
            ("os_release"@, Json::Str(release)),
            ("os_version"@, Json::Str(version)),
            ("arch"@, Json::Str(arch)),
            ("family"@, Json::Str(family)),
        ],
    )
}

/// The answer to `id` with the machine's details.
pub fn os_info_reply(id: JsonValue, os_type: &str, release: &str, version: &str, arch: &str, family: &str) -> (r: Response)
    ensures
        is_result(r, id@, os_info_json(os_type@, release@, version@, arch@, family@)),
{
    let m = vec![
        member("os_type", json_str(os_type)),
        member("os_release", json_str(release)),
        member("os_version", json_str(version)),
        member("arch", json_str(arch)),
        member("family", json_str(family)),
    ];
    assert(members_view(m@) =~= seq![
        ("os_type"@, Json::Str(os_type@)),
        ("os_release"@, Json::Str(release@)),
        ("os_version"@, Json::Str(version@)),
        ("arch"@, Json::Str(arch@)),
        ("family"@, Json::Str(family@)),
    ]);
    result_response(id, json_object(m))
}

/// Variables as a JSON object of strings.
pub open spec fn variables_json(vars: Seq<(Seq<char>, Seq<char>)>) -> Json {
    Json::Object(vars.map_values(|p: (Seq<char>, Seq<char>)| (p.0, Json::Str(p.1))))
}

/// The answer to `id` with the variables `vars`.
pub fn environment_reply(id: JsonValue, vars: &Vec<(String, String)>) -> (r: Response)
    ensures
        is_result(r, id@, variables_json(pairs_view(vars@))),
{
    let mut m: Vec<(String, JsonValue)> = Vec::new();
    let mut i: usize = 0;
    while i < vars.len()
        invariant
            i <= vars@.len(),
            m@.len() == i,
            forall|k: int| 0 <= k < i ==> (#[trigger] m@[k]).0@ == vars@[k].0@ && m@[k].1@ == Json::Str(vars@[k].1@),
        decreases vars@.len() - i,
    {
        m.push(member(vars[i].0.as_str(), json_str(vars[i].1.as_str())));
        i = i + 1;
    }
    assert(members_view(m@) =~= pairs_view(vars@).map_values(|p: (Seq<char>, Seq<char>)| (p.0, Json::Str(p.1))));
    result_response(id, json_object(m))
}

} // verus!
