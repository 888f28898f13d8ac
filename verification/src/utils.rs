//! Running a tool the model asked for: which server and tool a function
//! name means, whether the user must confirm, what an answer to the prompt
//! means, and the function response that reports the outcome.

use vstd::prelude::*;
use crate::json::{json_object, json_str, member, members_view, Json, JsonValue};
use crate::model::Part;
use crate::text::{
    cat2, cat3, cat5, chars_of, lowercase, str_eq, string_of, strings_view,
    to_lower, trim, trim_str, u64_to_string, dec,
};

verus! {

/// How a tool call ended.
pub enum ToolExecutionResult {
    Success(JsonValue),
    Failure(String),
    Timeout,
    Cancelled,
}

/// How much the user is asked before a tool runs.
pub enum ConfirmationLevel {
    /// Never asked.
    Never,
    /// Yes, no, or always for this tool.
    Standard,
    /// Yes or no, every time.
    Strict,
}

/// How tools are run.
pub struct ToolExecutionConfig {
    pub timeout_seconds: u64,
    pub confirmation_level: ConfirmationLevel,
    /// Functions that run without asking.
    pub auto_approve_tools: Vec<String>,
}

impl Default for ToolExecutionConfig {
    /// Thirty seconds, standard confirmation, and reading files and listing
    /// directories allowed without asking.
    fn default() -> (c: Self)
        ensures
            c.timeout_seconds == 30,
            c.confirmation_level is Standard,
            strings_view(c.auto_approve_tools@) == seq!["filesystem.read_file"@, "filesystem.list_directory"@],
    {
        let tools = vec![String::from_str("filesystem.read_file"), String::from_str("filesystem.list_directory")];
        assert(strings_view(tools@) =~= seq!["filesystem.read_file"@, "filesystem.list_directory"@]);
        ToolExecutionConfig { timeout_seconds: 30, confirmation_level: ConfirmationLevel::Standard, auto_approve_tools: tools }
    }
}

/// `s` with every `.` replaced by `/`.
pub open spec fn dots_to_slashes(s: Seq<char>) -> Seq<char> {
    s.map_values(|c: char| if c == '.' { '/' } else { c })
}

/// The server and the tool a function name means: the name with dots read
/// as slashes, split at its first slash.
pub open spec fn split_function_spec(name: Seq<char>) -> Option<(Seq<char>, Seq<char>)> {
    let q = dots_to_slashes(name);
    if q.contains('/') {
        let i = choose|i: int| 0 <= i < q.len() && q[i] == '/' && forall|j: int| 0 <= j < i ==> q[j] != '/';
        Some((q.take(i), q.skip(i + 1)))
    } else {
        None
    }
}

/// The server and the tool a function name means, or the error
/// `Invalid function call name format: <name>`.
pub fn split_function_name(name: &str) -> (r: Result<(String, String), String>)
    ensures
        match split_function_spec(name@) {
            Some((s, t)) => r matches Ok((a, b)) && a@ == s && b@ == t,
            None => r matches Err(e) && e@ == "Invalid function call name format: "@ + name@,
        },
{
    let v = chars_of(name);
    let mut q: Vec<char> = Vec::new();
    let mut i: usize = 0;
    while i < v.len()
        invariant
            v@ == name@,
            i <= v@.len(),
            q@ =~= dots_to_slashes(v@.take(i as int)),
        decreases v@.len() - i,
    {
        q.push(if v[i] == '.' { '/' } else { v[i] });
        i = i + 1;
    }
    assert(v@.take(v@.len() as int) =~= v@);
    let ghost qs = dots_to_slashes(name@);
    let mut k: usize = 0;
    while k < q.len() && q[k] != '/'
        invariant
            q@ == qs,
            k <= q@.len(),
            forall|j: int| 0 <= j < k ==> q@[j] != '/',
        decreases q@.len() - k,
    {
        k = k + 1;
    }
    if k == q.len() {
        assert(!qs.contains('/'));
        return Err(cat2("Invalid function call name format: ", name));
    }
    assert(qs.contains('/'));
    let ghost c = choose|i: int| 0 <= i < qs.len() && qs[i] == '/' && forall|j: int| 0 <= j < i ==> qs[j] != '/';
    assert(c == k as int) by {
        if c < k {
        } else if c > k {
            assert(qs[k as int] == '/');
        }
    }
    let mut server: Vec<char> = Vec::new();
    let mut j: usize = 0;
    while j < k
        invariant
            j <= k < q@.len(),
            server@ =~= q@.take(j as int),
        decreases k - j,
    {
        server.push(q[j]);
        j = j + 1;
    }
    let mut tool: Vec<char> = Vec::new();
    let mut m: usize = k + 1;
    while m < q.len()
        invariant
            k + 1 <= m <= q@.len(),
            tool@ =~= q@.subrange(k + 1, m as int),
        decreases q@.len() - m,
    {
        tool.push(q[m]);
        m = m + 1;
    }
    assert(tool@ =~= qs.skip(k + 1));
    Ok((string_of(server.as_slice()), string_of(tool.as_slice())))
}

/// Whether the user must confirm a call of `function_name`: never under
/// `Never`, else unless the function is approved in advance.
pub fn needs_confirmation(config: &ToolExecutionConfig, function_name: &str) -> (b: bool)
    ensures
        b == (!(config.confirmation_level is Never) && !strings_view(config.auto_approve_tools@).contains(function_name@)),
{
    match config.confirmation_level {
        ConfirmationLevel::Never => false,
        _ => !crate::mcp::servers::memory_records::contains_string(&config.auto_approve_tools, function_name),
    }
}

/// What the user answered.
pub enum Answer {
    Yes,
    /// Yes, and always for this tool.
    Always,
    Cancel,
}

/// The answer, trimmed and lowercased: `y` or `yes`; `a` or `always` under
/// standard confirmation; anything else cancels.
pub open spec fn answer_spec(response: Seq<char>, level: ConfirmationLevel) -> Answer {
    let a = lowercase(trim(response));
    if a == "y"@ || a == "yes"@ {
        Answer::Yes
    } else if (a == "a"@ || a == "always"@) && level is Standard {
        Answer::Always
    } else {
        Answer::Cancel
    }
}

/// What the user's response means (see [`answer_spec`]).
pub fn read_answer(response: &str, level: &ConfirmationLevel) -> (r: Answer)
    ensures
        r == answer_spec(response@, *level),
{
    let t = trim_str(response);
    let a = to_lower(t.as_str());
    let s = a.as_str();
    if str_eq(s, "y") || str_eq(s, "yes") {
        Answer::Yes
    } else if (str_eq(s, "a") || str_eq(s, "always")) && matches!(level, ConfirmationLevel::Standard) {
        Answer::Always
    } else {
        Answer::Cancel
    }
}

/// Under every confirmation level, a response that reads `y` or `yes` once
/// trimmed and lowercased runs the tool: it is read as a plain yes.
pub proof fn lemma_yes_runs_the_tool(response: Seq<char>, level: ConfirmationLevel)
    requires
        lowercase(trim(response)) == "y"@ || lowercase(trim(response)) == "yes"@,
    ensures
        answer_spec(response, level) is Yes,
{
}

/// Only standard confirmation knows `always`: the answer is `Always` exactly
/// when the level is standard and the response reads `a` or `always`.
pub proof fn lemma_always_only_under_standard(response: Seq<char>, level: ConfirmationLevel)
    ensures
        answer_spec(response, level) is Always <==> (level is Standard && (lowercase(trim(response)) == "a"@
            || lowercase(trim(response)) == "always"@)),
{
    reveal_strlit("y");
    reveal_strlit("yes");
    reveal_strlit("a");
    reveal_strlit("always");
    assert("a"@[0] != "y"@[0]);
    assert("a"@.len() != "yes"@.len());
    assert("always"@.len() != "y"@.len());
    assert("always"@.len() != "yes"@.len());
}

/// A response that reads none of `y`, `yes`, `a`, `always` cancels the
/// call, whatever the level; so does `a` or `always` outside standard
/// confirmation.
pub proof fn lemma_other_answers_cancel(response: Seq<char>, level: ConfirmationLevel)
    ensures
        ({
            let a = lowercase(trim(response));
            (a != "y"@ && a != "yes"@ && a != "a"@ && a != "always"@) ==> answer_spec(response, level) is Cancel
        }),
        (level !is Standard && lowercase(trim(response)) != "y"@ && lowercase(trim(response)) != "yes"@)
            ==> answer_spec(response, level) is Cancel,
{
}

/// The failure of a call: `Function call <name> failed: <error>`.
pub fn failure_message(function_name: &str, error: &str) -> (r: String)
    ensures
        r@ == "Function call "@ + function_name@ + " failed: "@ + error@,
{
    crate::text::cat4("Function call ", function_name, " failed: ", error)
}

/// The timeout of a call: `Function call <name> timed out after <n> seconds`.
pub fn timeout_message(function_name: &str, seconds: u64) -> (r: String)
    ensures
        r@ == "Function call "@ + function_name@ + " timed out after "@ + dec(seconds as nat) + " seconds"@,
{
    let n = u64_to_string(seconds);
    cat5("Function call ", function_name, " timed out after ", n.as_str(), " seconds")
}

/// The response a tool's outcome is reported with: its result, or an
/// object with the `error`.
pub open spec fn outcome_response(result: ToolExecutionResult) -> Json {
    match result {
        ToolExecutionResult::Success(v) => v@,
        ToolExecutionResult::Failure(e) => Json::Object(seq![("error"@, Json::Str(e@))]),
        ToolExecutionResult::Timeout => Json::Object(seq![("error"@, Json::Str("Tool execution timed out"@))]),
        ToolExecutionResult::Cancelled => Json::Object(seq![("error"@, Json::Str("Tool execution cancelled by user"@))]),
    }
}

/// The function response part that reports the outcome of a call.
pub fn tool_result_to_function_response(function_name: &str, result: ToolExecutionResult) -> (p: Part)
    ensures
        p.text is None,
        p.function_call is None,
        p.function_response matches Some(f) && f.name@ == function_name@ && f.response@ == outcome_response(result),
{
    let ghost r0 = result;
    let response = match result {
        ToolExecutionResult::Success(v) => v,
        ToolExecutionResult::Failure(e) => {
            let m = vec![member("error", JsonValue::Str(e))];
            assert(members_view(m@) =~= seq![("error"@, Json::Str(r0->Failure_0@))]);
            json_object(m)
        },
        ToolExecutionResult::Timeout => {
            let m = vec![member("error", json_str("Tool execution timed out"))];
            assert(members_view(m@) =~= seq![("error"@, Json::Str("Tool execution timed out"@))]);
            json_object(m)
        },
        ToolExecutionResult::Cancelled => {
            let m = vec![member("error", json_str("Tool execution cancelled by user"))];
            assert(members_view(m@) =~= seq![("error"@, Json::Str("Tool execution cancelled by user"@))]);
            json_object(m)
        },
    };
    Part::function_response(String::from_str(function_name), response)
}

/// The function name a tool `server/tool` is offered under reads back as
/// that server and tool, when the server's name holds no `/` or `.` and the
/// tool's name no `.`.
pub proof fn lemma_function_name_round_trip(server: Seq<char>, tool: Seq<char>)
    requires
        !server.contains('/'),
        !server.contains('.'),
        !tool.contains('.'),
    ensures
        split_function_spec(crate::chat::function_name_spec(server + seq!['/'] + tool)) == Some((server, tool)),
{
    let x = server + seq!['/'] + tool;
    let q = dots_to_slashes(crate::chat::function_name_spec(x));
    let n = server.len() as int;
    assert forall|j: int| 0 <= j < q.len() implies q[j] == (if x[j] == '.' { '/' } else { x[j] }) by {}
    assert(q[n] == '/');
    assert forall|j: int| 0 <= j < n implies q[j] != '/' by {
        assert(x[j] == server[j]);
        if server[j] == '/' {
            assert(server.contains('/'));
        }
        if server[j] == '.' {
            assert(server.contains('.'));
        }
    }
    assert(q.contains('/'));
    let i = choose|i: int| 0 <= i < q.len() && q[i] == '/' && forall|j: int| 0 <= j < i ==> q[j] != '/';
    assert(i == n) by {
        if i < n {
            assert(q[i] != '/');
        }
        if i > n {
            assert(q[n] != '/');
        }
    }
    assert(q.take(n) =~= server);
    assert forall|j: int| 0 <= j < tool.len() implies q.skip(n + 1)[j] == tool[j] by {
        assert(x[n + 1 + j] == tool[j]);
        if tool[j] == '.' {
            assert(tool.contains('.'));
        }
    }
    assert(q.skip(n + 1) =~= tool);
}

} // verus!
