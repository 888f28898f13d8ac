use gemini_cli::mcp::host::PendingRequests;
use gemini_cli::mcp::servers::filesystem::{patch_content, patch_ranges_ok};
use gemini_cli::mcp::rpc::JsonRpcError;
use gemini_cli::json::JsonValue;
use gemini_cli::mcp::rpc::{Request, Response};
use gemini_cli::mcp::servers::command::main::{handle_execute_tool, handle_get_resource, route, Route};
use gemini_cli::mcp::servers::command::{
    command_result, finish_command, handle_command_request, os_type, uname_text, CommandStep,
};
use gemini_cli::mcp::servers::filesystem::{
    done_reply, fs_failure, handle_fs_request, metadata_reply, FileMeta, FsOp, FsStep,
};
use gemini_cli::mcp::servers::memory::main::{
    distinct_tags, handle_line_request, memories_with_keys, relevant_from_reply, relevant_reply, retrieval_prompt, LineStep,
};
use gemini_cli::mcp::servers::filesystem::main::{
    check_failure, file_info_to_json, file_task, get_file_info, write_mode, FileStat, FileTask, PathCheck, WriteMode,
};
use gemini_cli::mcp::servers::memory::MemoryStore;
use gemini_cli::mcp::servers::memory_records::Memory;

fn to_value(v: &JsonValue) -> serde_json::Value {
    match v {
        JsonValue::Null => serde_json::Value::Null,
        JsonValue::Bool(b) => serde_json::Value::Bool(*b),
        JsonValue::Number(t) => serde_json::from_str(t).unwrap(),
        JsonValue::Str(s) => serde_json::Value::String(s.clone()),
        JsonValue::Array(a) => serde_json::Value::Array(a.iter().map(to_value).collect()),
        JsonValue::Object(m) => {
            let mut o = serde_json::Map::new();
            for (k, x) in m {
                o.insert(k.clone(), to_value(x));
            }
            serde_json::Value::Object(o)
        },
    }
}

fn from_value(v: &serde_json::Value) -> JsonValue {
    match v {
        serde_json::Value::Null => JsonValue::Null,
        serde_json::Value::Bool(b) => JsonValue::Bool(*b),
        serde_json::Value::Number(n) => JsonValue::Number(n.to_string()),
        serde_json::Value::String(s) => JsonValue::Str(s.clone()),
        serde_json::Value::Array(a) => JsonValue::Array(a.iter().map(from_value).collect()),
        serde_json::Value::Object(m) => JsonValue::Object(m.iter().map(|(k, x)| (k.clone(), from_value(x))).collect()),
    }
}

fn json(text: &str) -> JsonValue {
    from_value(&serde_json::from_str(text).unwrap())
}

fn request(id: u64, method: &str, params: Option<&str>) -> Request {
    Request {
        jsonrpc: "2.0".to_string(),
        id: Some(JsonValue::Number(id.to_string())),
        method: method.to_string(),
        params: params.map(json),
    }
}

fn error_of(r: &Response) -> (i64, String) {
    let e = r.error.as_ref().expect("an error response");
    (e.code, e.message.clone())
}

fn result_of(r: &Response) -> serde_json::Value {
    to_value(r.result.as_ref().expect("a result"))
}

fn memory(key: &str, value: &str, tags: &[&str]) -> Memory {
    Memory {
        key: key.to_string(),
        value: value.to_string(),
        timestamp: 1,
        tags: tags.iter().map(|t| t.to_string()).collect(),
    }
}

#[test]
fn command_without_command_is_invalid_params() {
    let r = request(1, "mcp/tool/execute", Some(r#"{"name":"execute_command","args":{}}"#));
    match handle_command_request(&r) {
        CommandStep::Reply(resp) => assert_eq!(error_of(&resp), (-32602, "Missing required parameter: command".to_string())),
        _ => panic!("expected an error reply"),
    }
}

#[test]
fn command_plan_takes_arguments_directory_and_environment() {
    let r = request(
        2,
        "mcp/tool/execute",
        Some(r#"{"name":"execute_command","args":{"command":"ls","arguments":["-l",3,"/tmp"],"working_directory":"/","environment":{"A":"1","B":2}}}"#),
    );
    match handle_command_request(&r) {
        CommandStep::Run { id, plan, shell } => {
            assert_eq!(to_value(&id), serde_json::Value::from(2));
            assert!(!shell);
            assert_eq!(plan.program, "ls");
            assert_eq!(plan.args, vec!["-l".to_string(), "/tmp".to_string()]);
            assert_eq!(plan.working_dir, Some("/".to_string()));
            assert_eq!(plan.env, vec![("A".to_string(), "1".to_string())]);
        },
        _ => panic!("expected a command to run"),
    }
}

#[test]
fn shell_command_runs_through_sh() {
    let r = request(3, "mcp/tool/execute", Some(r#"{"name":"execute_shell","args":{"command":"echo hi"}}"#));
    match handle_command_request(&r) {
        CommandStep::Run { plan, shell, .. } => {
            assert!(shell);
            assert_eq!(plan.program, "sh");
            assert_eq!(plan.args, vec!["-c".to_string(), "echo hi".to_string()]);
            assert_eq!(plan.working_dir, None);
        },
        _ => panic!("expected a shell command"),
    }
}

#[test]
fn command_server_errors() {
    let unknown = request(4, "mcp/tool/execute", Some(r#"{"name":"format_disk","args":{}}"#));
    match handle_command_request(&unknown) {
        CommandStep::Reply(resp) => assert_eq!(error_of(&resp), (-32601, "Tool not found: format_disk".to_string())),
        _ => panic!(),
    }
    let no_params = request(5, "mcp/resource/get", None);
    match handle_command_request(&no_params) {
        CommandStep::Reply(resp) => assert_eq!(error_of(&resp), (-32602, "Missing parameters for resource get".to_string())),
        _ => panic!(),
    }
    let method = request(6, "bogus", None);
    match handle_command_request(&method) {
        CommandStep::Reply(resp) => assert_eq!(error_of(&resp), (-32601, "Method not found: bogus".to_string())),
        _ => panic!(),
    }
    assert!(matches!(handle_command_request(&request(7, "exit", None)), CommandStep::Exit));
    let res = request(8, "mcp/resource/get", Some(r#"{"name":"os_info"}"#));
    assert!(matches!(handle_command_request(&res), CommandStep::OsInfo(_)));
}

#[test]
fn command_server_initialize_lists_tools() {
    match handle_command_request(&request(9, "initialize", None)) {
        CommandStep::Reply(resp) => {
            let v = result_of(&resp);
            assert_eq!(v["serverInfo"]["name"], "command-mcp");
            assert_eq!(v["capabilities"]["tools"][0]["name"], "execute_command");
            assert_eq!(v["capabilities"]["tools"][1]["name"], "execute_shell");
            assert_eq!(v["capabilities"]["resources"][1]["name"], "environment_variables");
        },
        _ => panic!(),
    }
}

#[test]
fn finished_command_is_reported() {
    let ok = command_result(Some(0), true, b"out\n", b"");
    let r = finish_command(JsonValue::Null, false, Ok(ok));
    let v = result_of(&r);
    assert_eq!(v["exit_code"], 0);
    assert_eq!(v["stdout"], "out\n");
    assert_eq!(v["success"], true);
    let killed = command_result(None, false, b"", b"\xff");
    assert_eq!(killed.exit_code, -1);
    assert_eq!(killed.stderr, "\u{fffd}");
    let failed = finish_command(JsonValue::Null, true, Err("No such file".to_string()));
    assert_eq!(error_of(&failed), (-32000, "Failed to execute shell command: No such file".to_string()));
}

#[test]
fn machine_details() {
    assert_eq!(os_type("linux"), "Linux");
    assert_eq!(os_type("macos"), "macOS");
    assert_eq!(os_type("freebsd"), "Unknown");
    assert_eq!(uname_text(Some(b" 6.1.0 \n".to_vec())), "6.1.0");
    assert_eq!(uname_text(None), "Unknown");
}

#[test]
fn standalone_command_server_stops_on_non_string_command() {
    let r = handle_execute_tool(JsonValue::Null, Some(Ok(("execute_command".to_string(), json(r#"{"command":5}"#)))));
    match r {
        Err(e) => assert_eq!(e, "command must be a string"),
        Ok(_) => panic!("a numeric command was accepted"),
    }
    let missing = handle_execute_tool(JsonValue::Null, None);
    match missing {
        Ok(CommandStep::Reply(resp)) => assert_eq!(error_of(&resp), (-32602, "Invalid params: params are required".to_string())),
        _ => panic!(),
    }
    match handle_get_resource(JsonValue::Null, Some(Ok("disk".to_string()))) {
        CommandStep::Reply(resp) => assert_eq!(error_of(&resp), (-32601, "Resource not found: disk".to_string())),
        _ => panic!(),
    }
    assert!(matches!(route("tool/execute"), Route::ExecuteTool));
    assert!(matches!(route("mcp/tool/execute"), Route::Unknown));
}

#[test]
fn line_server_stores_then_saves() {
    let mut store = MemoryStore::new();
    let r = request(1, "mcp/tool/execute", Some(r#"{"tool_name":"store_memory","arguments":{"key":"k","value":"v","tags":["a"]}}"#));
    match handle_line_request(&mut store, &r, 100) {
        LineStep::SaveThen { result, .. } => {
            let v = to_value(&result);
            assert_eq!(v["success"], true);
            assert_eq!(v["message"], "Memory stored with key: k");
        },
        _ => panic!("a store is answered after saving"),
    }
    assert_eq!(store.memories.len(), 1);
    assert_eq!(store.memories[0].timestamp, 100);
    let get = request(2, "mcp/tool/execute", Some(r#"{"tool_name":"retrieve_memory","arguments":{"key":"k"}}"#));
    match handle_line_request(&mut store, &get, 101) {
        LineStep::Reply(resp) => {
            let v = result_of(&resp);
            assert_eq!(v["count"], 1);
            assert_eq!(v["memories"][0]["value"], "v");
        },
        _ => panic!(),
    }
}

#[test]
fn line_server_stops_on_missing_argument() {
    let mut store = MemoryStore::new();
    let r = request(1, "mcp/tool/execute", Some(r#"{"tool_name":"store_memory","arguments":{"key":"k"}}"#));
    match handle_line_request(&mut store, &r, 1) {
        LineStep::Stop(resp, e) => {
            assert_eq!(e, "Missing value parameter");
            assert_eq!(error_of(&resp), (-32602, "Missing value parameter".to_string()));
        },
        _ => panic!(),
    }
    assert_eq!(store.memories.len(), 0);
    let no_name = request(2, "mcp/tool/execute", Some(r#"{"arguments":{}}"#));
    match handle_line_request(&mut store, &no_name, 1) {
        LineStep::Reply(resp) => assert_eq!(error_of(&resp), (-32602, "Missing tool_name parameter".to_string())),
        _ => panic!(),
    }
}

#[test]
fn line_server_stats_count_distinct_tags() {
    let mut store = MemoryStore::new();
    store.memories = vec![memory("a", "1", &["x", "y"]), memory("b", "2", &["y", "z", "x"])];
    let r = request(1, "mcp/resource/get", Some(r#"{"resource_name":"memory_stats"}"#));
    match handle_line_request(&mut store, &r, 1) {
        LineStep::Reply(resp) => {
            let v = result_of(&resp);
            assert_eq!(v["total_memories"], 2);
            assert_eq!(v["unique_tags"], 3);
        },
        _ => panic!(),
    }
    assert_eq!(distinct_tags(&store.memories), vec!["x".to_string(), "y".to_string(), "z".to_string()]);
}

#[test]
fn relevant_memories_by_key() {
    let ms = vec![memory("a", "1", &[]), memory("b", "2", &[]), memory("a", "3", &[])];
    let picked = memories_with_keys(&ms, &vec!["a".to_string()]);
    assert_eq!(picked.len(), 2);
    assert_eq!(picked[1].value, "3");
    match relevant_reply(JsonValue::Null, Err("timeout".to_string())) {
        LineStep::Stop(resp, e) => {
            assert_eq!(e, "Failed to get relevant memories: timeout");
            assert_eq!(error_of(&resp).0, -32603);
        },
        _ => panic!(),
    }
}

#[test]
fn retrieval_prompt_lists_memories() {
    let ms = vec![memory("k", "v", &["t1", "t2"])];
    let p = retrieval_prompt(&ms, "q?");
    assert!(p.starts_with("You are a memory retrieval system"));
    assert!(p.contains("STORED MEMORIES:\n        - Key: \"k\", Value: \"v\", Tags: [t1, t2]\n"));
    assert!(p.contains("USER QUERY:\n        \"q?\""));
    assert!(p.ends_with("just the JSON array."));
}

#[test]
fn relevant_memories_come_from_the_named_keys() {
    let ms = vec![memory("a", "1", &[]), memory("b", "2", &[]), memory("c", "3", &[])];
    let whole = relevant_from_reply(&ms, "[\"c\", \"a\"]").unwrap();
    assert_eq!(whole.iter().map(|m| m.key.clone()).collect::<Vec<_>>(), vec!["a", "c"]);
    let sliced = relevant_from_reply(&ms, "Sure: [\"b\"] done").unwrap();
    assert_eq!(sliced.iter().map(|m| m.key.clone()).collect::<Vec<_>>(), vec!["b"]);
    match relevant_from_reply(&ms, "none") {
        Err(e) => assert!(e.starts_with("Failed to parse memory keys from response: "), "{}", e),
        Ok(_) => panic!("an answer without keys was read"),
    }
    match relevant_from_reply(&ms, "[1, 2]") {
        Err(e) => assert!(e.starts_with("Failed to parse memory keys from response: "), "{}", e),
        Ok(_) => panic!("numbers were read as keys"),
    }
}

#[test]
fn filesystem_requests() {
    let r = request(1, "mcp/tool/execute", Some(r#"{"name":"read_file","args":{"path":"a.txt","start_line":2}}"#));
    match handle_fs_request(&r) {
        FsStep::Run(_, FsOp::ReadFile { path, start, end }) => {
            assert_eq!(path, "a.txt");
            assert_eq!(start, Some(2));
            assert_eq!(end, None);
        },
        _ => panic!(),
    }
    let empty = request(2, "mcp/tool/execute", Some(r#"{"name":"write_file","args":{"path":""}}"#));
    match handle_fs_request(&empty) {
        FsStep::Reply(resp) => assert_eq!(error_of(&resp), (-32602, "Missing or empty 'path' parameter".to_string())),
        _ => panic!(),
    }
    let rename = request(3, "mcp/tool/execute", Some(r#"{"name":"rename","args":{"from_path":"a"}}"#));
    match handle_fs_request(&rename) {
        FsStep::Reply(resp) => assert_eq!(error_of(&resp), (-32602, "Missing or empty 'to_path' parameter".to_string())),
        _ => panic!(),
    }
    let list = request(4, "mcp/tool/execute", Some(r#"{"name":"list_directory","args":{}}"#));
    match handle_fs_request(&list) {
        FsStep::Run(_, FsOp::ListDirectory { path }) => assert_eq!(path, "."),
        _ => panic!(),
    }
    let home = request(5, "resource/get", Some(r#"{"name":"home_directory"}"#));
    assert!(matches!(handle_fs_request(&home), FsStep::Run(_, FsOp::HomeDirectory)));
}

#[test]
fn filesystem_answers() {
    let op = FsOp::Rename { from: "a".to_string(), to: "b".to_string() };
    let v = result_of(&done_reply(JsonValue::Null, &op));
    assert_eq!(v["result"]["from_path"], "a");
    assert_eq!(v["result"]["success"], true);
    let failed = fs_failure(JsonValue::Null, &op, "denied");
    assert_eq!(error_of(&failed), (-32000, "Failed to rename from 'a' to 'b': denied".to_string()));
    let meta = FileMeta { is_dir: false, is_file: true, is_symlink: false, size: 10, modified: None };
    let m = result_of(&metadata_reply(JsonValue::Null, "f", &meta));
    assert_eq!(m["result"]["size"], 10);
    assert!(m["result"]["modified_timestamp_secs"].is_null());
}

#[test]
fn standalone_file_tasks() {
    match file_task("write_file", &json(r#"{"path":"a","content":"x"}"#)) {
        Ok(Ok(FileTask::Write { path, content, mode })) => {
            assert_eq!(path, "a");
            assert_eq!(content, "x");
            assert_eq!(mode, "overwrite");
        },
        _ => panic!(),
    }
    match file_task("read_file", &json(r#"{"path":7}"#)) {
        Err(e) => assert_eq!(e, "path must be a string"),
        _ => panic!(),
    }
    match file_task("read_file", &json(r#"{}"#)) {
        Ok(Err((code, m))) => {
            assert_eq!(code, -32602);
            assert_eq!(m, "Missing required parameter: path");
        },
        _ => panic!(),
    }
    match file_task("chmod", &json(r#"{}"#)) {
        Ok(Err((code, m))) => {
            assert_eq!(code, -32601);
            assert_eq!(m, "Tool not found: chmod");
        },
        _ => panic!(),
    }
    assert!(matches!(write_mode("append"), Some(WriteMode::Append)));
    assert!(write_mode("truncate").is_none());
    assert_eq!(check_failure(PathCheck::BadMode, "truncate"), "Invalid mode: truncate");
}

#[test]
fn file_info_json_has_nulls_for_unknowns() {
    let info = get_file_info(
        "/tmp/dir/x.txt",
        FileStat { is_dir: false, is_file: true, is_symlink: false, len: 3, modified: None, created: Some("t".to_string()) },
    );
    let v = to_value(&file_info_to_json(&info));
    assert_eq!(v["name"], "x.txt");
    assert_eq!(v["size"], 3);
    assert!(v["modified"].is_null());
    assert_eq!(v["created"], "t");
}

#[test]
fn execute_command_carries_its_time_limit() {
    let step = handle_execute_tool(
        JsonValue::Null,
        Some(Ok(("execute_command".to_string(), json(r#"{"command":"sleep","arguments":["5"],"timeout_ms":100}"#)))),
    );
    match step {
        Ok(CommandStep::Run { plan, shell, .. }) => {
            assert_eq!(plan.timeout_ms, 100);
            assert_eq!(plan.program, "sleep");
            assert!(!shell);
        },
        _ => panic!("the command was not planned"),
    }
}

#[test]
fn timed_out_command_gets_an_error_reply() {
    let r = gemini_cli::mcp::servers::command::timeout_reply(JsonValue::Number("3".to_string()), 100);
    assert_eq!(error_of(&r), (-32000, "Command timed out after 100 ms".to_string()));
}

#[test]
fn patch_with_huge_hunk_range_is_refused_before_parsing() {
    let patch = "--- a\n+++ b\n@@ -18446744073709551615,1 +1,1 @@\n-x\n+y\n@@ -1,1 +1,1 @@\n-x\n+y\n";
    assert!(!patch_ranges_ok(patch));
    assert_eq!(patch_content("x\n", patch, "f"), Err("Failed to parse patch: hunk range too large".to_string()));
}

#[test]
fn patch_content_applies_a_patch() {
    let patch = "--- a\n+++ b\n@@ -1,2 +1,2 @@\n one\n-two\n+three\n";
    assert!(patch_ranges_ok(patch));
    assert_eq!(patch_content("one\ntwo\n", patch, "f"), Ok("one\nthree\n".to_string()));
}

#[test]
fn patch_content_reports_a_patch_that_does_not_apply() {
    let patch = "--- a\n+++ b\n@@ -1,2 +1,2 @@\n one\n-two\n+three\n";
    match patch_content("alpha\nbeta\n", patch, "f") {
        Err(e) => assert!(e.starts_with("Failed to apply patch"), "{}", e),
        Ok(t) => panic!("applied to the wrong text: {}", t),
    }
}

#[test]
fn response_error_keeps_its_data() {
    let r = Response {
        jsonrpc: "2.0".to_string(),
        id: JsonValue::Null,
        result: Some(JsonValue::Bool(true)),
        error: Some(JsonRpcError { code: -1, message: "bad".to_string(), data: Some(JsonValue::Str("why".to_string())) }),
    };
    match r.result() {
        Err(e) => {
            assert_eq!(e.code, -1);
            assert_eq!(e.message, "bad");
            assert!(matches!(e.data, Some(JsonValue::Str(ref s)) if s == "why"));
        },
        Ok(_) => panic!("the error did not win"),
    }
}

#[test]
fn memory_store_tools_carry_descriptions_and_schemas() {
    let tools = gemini_cli::mcp::servers::memory_store::memory_store_tools();
    assert_eq!(tools.len(), 6);
    assert_eq!(tools[0].name, "store_memory");
    assert_eq!(tools[0].description, "Store a key-value pair with optional tags.");
    let schema = to_value(&tools[0].schema);
    assert_eq!(schema["required"], serde_json::Value::Array(vec![serde_json::Value::String("key".to_string()), serde_json::Value::String("value".to_string())]));
    assert_eq!(schema["properties"]["tags"]["type"], "array");
    assert_eq!(schema["properties"]["tags"]["items"]["type"], "string");
}

#[test]
fn command_tools_carry_their_time_limit_property_only_when_asked() {
    let plain = gemini_cli::mcp::servers::command::command_tools();
    assert_eq!(plain[1].description, "Executes a shell command using the default system shell");
    assert!(to_value(&plain[0].schema)["properties"].get("timeout_ms").is_none());
    assert_eq!(to_value(&plain[0].schema)["properties"]["arguments"]["default"], serde_json::Value::Array(Vec::new()));
}

#[test]
fn patch_with_ten_digit_start_reaches_diffy() {
    let patch = "--- a\n+++ b\n@@ -4294967296,1 +4294967296,1 @@\n-x\n+y\n";
    assert!(patch_ranges_ok(patch));
    match patch_content("x\n", patch, "f") {
        Ok(t) => assert_eq!(t, "y\n"),
        Err(e) => assert!(!e.contains("hunk range too large"), "{}", e),
    }
}

#[test]
fn pending_requests_give_fresh_ids_and_route_answers() {
    let mut p = PendingRequests::new();
    let a = p.register("initialize");
    let b = p.register("mcp/tool/execute");
    assert_eq!((a, b), (1, 2));
    assert_eq!(p.take(2), Some("mcp/tool/execute".to_string()));
    assert_eq!(p.take(2), None);
    assert_eq!(p.take(7), None);
    let c = p.register("shutdown");
    assert_eq!(c, 3);
    assert_eq!(p.take(1), Some("initialize".to_string()));
    assert_eq!(p.waiting.len(), 1);
}
