//! The stand-alone command server: its description at `initialize`, and
//! tool and resource requests whose parameters the caller has decoded as
//! records.

use vstd::prelude::*;
use crate::json::{json_get, Json, JsonValue};
use crate::mcp::rpc::{Request, Response};
use crate::mcp::servers::command::{
    command_plan, command_plan_spec, command_resource_views, command_resources, command_step_is, command_tool_names,
    command_tool_views, command_tools_with, shell_plan, shell_plan_spec, CommandStep, CommandStepSpec, PlanView,
};
use crate::mcp::servers::memory::answer_id;
use crate::mcp::servers::protocol::{
    error_response, initialize_result, initialize_result_json, is_result, request_id, resource_views, result_response,
    tool_names, tool_views, Reply, ResourceSpec, ToolSpec,
};
use crate::text::{cat2, str_eq};

verus! {

/// The answer to `initialize`: the server, its tools with their schemas
/// under `schema`, and its resources.
pub fn handle_initialize(request: &Request) -> (r: Response)
    ensures
        exists|tools: Seq<ToolSpec>, resources: Seq<ResourceSpec>|
            tool_views(tools) == command_tool_views(true) && resource_views(resources) == command_resource_views()
                && #[trigger] is_result(
                r,
                answer_id(request),
                initialize_result_json("command-mcp"@, "1.0.0"@, tools, "schema"@, resources, false),
            ),
{
    let tools = command_tools_with(true);
    let resources = command_resources();
    let result = initialize_result("command-mcp", "1.0.0", &tools, "schema", &resources, false);
    let r = result_response(request_id(request), result);
    assert(is_result(r, answer_id(request), initialize_result_json("command-mcp"@, "1.0.0"@, tools@, "schema"@, resources@, false)));
    r
}

/// Where a request goes.
pub enum Route {
    Initialize,
    Shutdown,
    Exit,
    ExecuteTool,
    GetResource,
    Unknown,
}

/// Where a request with `method` goes.
pub open spec fn route_spec(method: Seq<char>) -> Route {
    if method == "initialize"@ {
        Route::Initialize
    } else if method == "shutdown"@ {
        Route::Shutdown
    } else if method == "exit"@ {
        Route::Exit
    } else if method == "tool/execute"@ {
        Route::ExecuteTool
    } else if method == "resource/get"@ {
        Route::GetResource
    } else {
        Route::Unknown
    }
}

/// Where a request with `method` goes (see [`route_spec`]).
pub fn route(method: &str) -> (r: Route)
    ensures
        r == route_spec(method@),
{
    if str_eq(method, "initialize") {
        Route::Initialize
    } else if str_eq(method, "shutdown") {
        Route::Shutdown
    } else if str_eq(method, "exit") {
        Route::Exit
    } else if str_eq(method, "tool/execute") {
        Route::ExecuteTool
    } else if str_eq(method, "resource/get") {
        Route::GetResource
    } else {
        Route::Unknown
    }
}

/// The answer to a request with an unknown method.
pub fn method_not_found(request: &Request) -> (r: Response)
    ensures
        crate::mcp::servers::protocol::is_error(r, answer_id(request), -32601i64, "Method not found: "@ + request.method@),
{
    error_response(request_id(request), -32601, cat2("Method not found: ", request.method.as_str()), None)
}

/// The time limit of a call: `timeout_ms` when it is an unsigned number,
/// else 0 (no limit).
pub open spec fn timeout_arg(args: Json) -> u64 {
    match json_get(args, "timeout_ms"@) {
        Some(v) => match crate::json::json_as_u64(v) {
            Some(n) => n,
            None => 0,
        },
        None => 0,
    }
}

/// `p` with the time limit `ms`.
pub open spec fn with_timeout(p: PlanView, ms: u64) -> PlanView {
    PlanView { timeout_ms: ms, ..p }
}

fn timeout_of(args: &JsonValue) -> (r: u64)
    ensures
        r == timeout_arg(args@),
{
    match args.get("timeout_ms") {
        Some(v) => match v.as_u64() {
            Some(n) => n,
            None => 0,
        },
        None => 0,
    }
}

/// The `command` argument: its text, none when it is missing, and a fault
/// that stops the server when it is not a string.
pub open spec fn command_arg_spec(args: Json) -> Result<Option<Seq<char>>, Seq<char>> {
    match json_get(args, "command"@) {
        None => Ok(None),
        Some(Json::Str(s)) => Ok(Some(s)),
        Some(_) => Err("command must be a string"@),
    }
}

/// The error for parameters that could not be read as a record (`Some`
/// with the reason) or that are missing (`None`).
pub open spec fn invalid_params(reason: Option<Seq<char>>) -> CommandStepSpec {
    match reason {
        None => CommandStepSpec::Reply(Reply::Error(-32602i64, "Invalid params: params are required"@)),
        Some(e) => CommandStepSpec::Reply(Reply::Error(-32602i64, "Invalid params: "@ + e)),
    }
}

/// What a call of the tool `name` with `args` comes to, or the fault that
/// stops the server.
pub open spec fn main_tool_step(name: Seq<char>, args: Json) -> Result<CommandStepSpec, Seq<char>> {
    if name == "execute_command"@ || name == "execute_shell"@ {
        match command_arg_spec(args) {
            Err(m) => Err(m),
            Ok(None) => Ok(CommandStepSpec::Reply(Reply::Error(-32602i64, "Missing required parameter: command"@))),
            Ok(Some(c)) => if name == "execute_shell"@ {
                Ok(CommandStepSpec::Run(with_timeout(shell_plan_spec(c, args), timeout_arg(args)), true))
            } else {
                Ok(CommandStepSpec::Run(with_timeout(command_plan_spec(c, args), timeout_arg(args)), false))
            },
        }
    } else {
        Ok(CommandStepSpec::Reply(Reply::Error(-32601i64, "Tool not found: "@ + name)))
    }
}

/// `r` is `spec`, answering `id`.
pub open spec fn main_step_is(r: Result<CommandStep, String>, id: Json, spec: Result<CommandStepSpec, Seq<char>>) -> bool {
    match spec {
        Ok(s) => r matches Ok(step) && command_step_is(step, id, s),
        Err(m) => r matches Err(e) && e@ == m,
    }
}

/// A tool request: `params` is `None` when the request has none, and
/// otherwise the tool's name and arguments as decoded, or why they could
/// not be.
pub fn handle_execute_tool(id: JsonValue, params: Option<Result<(String, JsonValue), String>>) -> (r: Result<CommandStep, String>)
    ensures
        main_step_is(
            r,
            id@,
            match params {
                None => Ok(invalid_params(None)),
                Some(Err(e)) => Ok(invalid_params(Some(e@))),
                Some(Ok((name, args))) => main_tool_step(name@, args@),
            },
        ),
{
    proof {
        reveal_strlit("execute_command");
        reveal_strlit("execute_shell");
    }
    match params {
        None => Ok(CommandStep::Reply(error_response(id, -32602, String::from_str("Invalid params: params are required"), None))),
        Some(Err(e)) => Ok(CommandStep::Reply(error_response(id, -32602, cat2("Invalid params: ", e.as_str()), None))),
        Some(Ok((name, args))) => {
            let n = name.as_str();
            let shell = str_eq(n, "execute_shell");
            if str_eq(n, "execute_command") || shell {
                match args.get("command") {
                    None => Ok(CommandStep::Reply(error_response(id, -32602, String::from_str("Missing required parameter: command"), None))),
                    Some(v) => match v.as_str() {
                        None => Err(String::from_str("command must be a string")),
                        Some(c) => {
                            let c = String::from_str(c);
                            let limit = timeout_of(&args);
                            if shell {
                                let mut plan = shell_plan(c, &args);
                                plan.timeout_ms = limit;
                                Ok(CommandStep::Run { id, plan, shell: true })
                            } else {
                                let mut plan = command_plan(c, &args);
                                plan.timeout_ms = limit;
                                Ok(CommandStep::Run { id, plan, shell: false })
                            }
                        },
                    },
                }
            } else {
                Ok(CommandStep::Reply(error_response(id, -32601, cat2("Tool not found: ", n), None)))
            }
        },
    }
}

/// A resource request: `params` is `None` when the request has none, and
/// otherwise the resource's name as decoded, or why it could not be.
pub fn handle_get_resource(id: JsonValue, params: Option<Result<String, String>>) -> (s: CommandStep)
    ensures
        command_step_is(
            s,
            id@,
            match params {
                None => invalid_params(None),
                Some(Err(e)) => invalid_params(Some(e@)),
                Some(Ok(name)) => if name@ == "os_info"@ {
                    CommandStepSpec::OsInfo
                } else if name@ == "environment_variables"@ {
                    CommandStepSpec::Environment
                } else {
                    CommandStepSpec::Reply(Reply::Error(-32601i64, "Resource not found: "@ + name@))
                },
            },
        ),
{
    match params {
        None => CommandStep::Reply(error_response(id, -32602, String::from_str("Invalid params: params are required"), None)),
        Some(Err(e)) => CommandStep::Reply(error_response(id, -32602, cat2("Invalid params: ", e.as_str()), None)),
        Some(Ok(name)) => {
            let n = name.as_str();
            if str_eq(n, "os_info") {
                CommandStep::OsInfo(id)
            } else if str_eq(n, "environment_variables") {
                CommandStep::Environment(id)
            } else {
                CommandStep::Reply(error_response(id, -32601, cat2("Resource not found: ", n), None))
            }
        },
    }
}

} // verus!
