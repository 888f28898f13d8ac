//! The Gemini API as the assistant uses it: the request it builds from the
//! history and the prompt, and what it makes of the answer.

use vstd::prelude::*;
use crate::history::ChatMessage;
use crate::json::{get_str, json_get, Json, JsonValue};
use crate::text::{cat4, str_eq, str_starts_with, has_prefix};

verus! {

/// The model and the key it is called with.
pub struct GeminiModel {
    pub api_key: String,
    pub model_name: String,
}

impl GeminiModel {
    /// A model; `gemini-2.5-pro-preview-03-25` unless a name is given.
    pub fn new(api_key: String, model_name: Option<String>) -> (m: Self)
        ensures
            m.api_key == api_key,
            m.model_name@ == match model_name {
                Some(n) => n@,
                None => "gemini-2.5-pro-preview-03-25"@,
            },
    {
        let name = match model_name {
            Some(n) => n,
            None => String::from_str("gemini-2.5-pro-preview-03-25"),
        };
        GeminiModel { api_key, model_name: name }
    }

    /// The address of the model's `generateContent` call.
    pub fn api_url(&self) -> (r: String)
        ensures
            r@ == "https://generativelanguage.googleapis.com/v1beta/models/"@ + self.model_name@
                + ":generateContent?key="@ + self.api_key@,
    {
        cat4(
            "https://generativelanguage.googleapis.com/v1beta/models/",
            self.model_name.as_str(),
            ":generateContent?key=",
            self.api_key.as_str(),
        )
    }
}

/// A function call the model asks for.
pub struct FunctionCall {
    pub name: String,
    pub arguments: JsonValue,
}

impl FunctionCall {
    /// A copy of the call.
    pub fn copy(&self) -> (r: FunctionCall)
        ensures
            r.name@ == self.name@,
            r.arguments@ == self.arguments@,
    {
        FunctionCall { name: self.name.clone(), arguments: self.arguments.copy() }
    }
}

/// A function the model may call.
pub struct FunctionDef {
    pub name: String,
    pub description: Option<String>,
    pub parameters: JsonValue,
}

/// The answer to a function call.
pub struct FunctionResponse {
    pub name: String,
    pub response: JsonValue,
}

/// One part of a message: text, a function call or a function's answer.
pub struct Part {
    pub text: Option<String>,
    pub function_call: Option<FunctionCall>,
    pub function_response: Option<FunctionResponse>,
}

impl Part {
    /// A text part.
    pub fn text(text: String) -> (p: Self)
        ensures
            p.text == Some(text),
            p.function_call is None,
            p.function_response is None,
    {
        Part { text: Some(text), function_call: None, function_response: None }
    }

    /// A part answering the function `name` with `response`.
    pub fn function_response(name: String, response: JsonValue) -> (p: Self)
        ensures
            p.text is None,
            p.function_call is None,
            p.function_response matches Some(r) && r.name == name && r.response == response,
    {
        Part { text: None, function_call: None, function_response: Some(FunctionResponse { name, response }) }
    }
}

/// A message of the request, with its role.
pub struct Content {
    pub parts: Vec<Part>,
    pub role: Option<String>,
}

/// A list of functions offered to the model.
pub struct Tool {
    pub function_declarations: Vec<FunctionDef>,
}

/// A request to the model (its generation settings are added when it is
/// sent).
pub struct GenerateContentRequest {
    pub contents: Vec<Content>,
    pub system_instruction: Option<Content>,
    pub tools: Option<Vec<Tool>>,
}

/// `c` is a message of one text part with the role `role`.
pub open spec fn is_text_content(c: Content, role: Seq<char>, text: Seq<char>) -> bool {
    &&& c.role matches Some(r) && r@ == role
    &&& c.parts@.len() == 1
    &&& c.parts@[0].text matches Some(t) && t@ == text
    &&& c.parts@[0].function_call is None
    &&& c.parts@[0].function_response is None
}

/// A message of one text part.
pub fn text_content(role: &str, text: &str) -> (c: Content)
    ensures
        is_text_content(c, role@, text@),
{
    Content { parts: vec![Part::text(String::from_str(text))], role: Some(String::from_str(role)) }
}

/// The system instruction for the prompt `p`, if there is one.
pub fn system_instruction(p: Option<&str>) -> (c: Option<Content>)
    ensures
        match p {
            Some(t) => c matches Some(x) && is_text_content(x, "system"@, t@),
            None => c is None,
        },
{
    match p {
        Some(t) => Some(text_content("system", t)),
        None => None,
    }
}

/// The API role of a history message: `user` stays, `assistant` becomes
/// `model`; other roles are not sent.
pub open spec fn api_role(role: Seq<char>) -> Option<Seq<char>> {
    if role == "user"@ {
        Some("user"@)
    } else if role == "assistant"@ {
        Some("model"@)
    } else {
        None
    }
}

/// The messages of a history as the API gets them: `(role, text)`.
pub open spec fn history_turns(ms: Seq<ChatMessage>) -> Seq<(Seq<char>, Seq<char>)>
    decreases ms.len(),
{
    if ms.len() == 0 {
        Seq::empty()
    } else {
        let rest = history_turns(ms.drop_last());
        match api_role(ms.last().role@) {
            Some(r) => rest.push((r, ms.last().content@)),
            None => rest,
        }
    }
}

/// The turns of a request: the history (or the prompt alone when there is
/// none), without a last user turn that repeats the prompt, then the prompt.
pub open spec fn request_turns(history: Option<Seq<ChatMessage>>, prompt: Seq<char>) -> Seq<(Seq<char>, Seq<char>)> {
    let base = match history {
        Some(ms) => history_turns(ms),
        None => seq![("user"@, prompt)],
    };
    let kept = if base.len() > 0 && base.last() == ("user"@, prompt) {
        base.drop_last()
    } else {
        base
    };
    kept.push(("user"@, prompt))
}

/// The turns of the history `ms`, as contents.
fn history_contents(ms: &Vec<ChatMessage>) -> (r: Vec<Content>)
    ensures
        r@.len() == history_turns(ms@).len(),
        forall|i: int| 0 <= i < r@.len() ==> is_text_content(#[trigger] r@[i], history_turns(ms@)[i].0, history_turns(ms@)[i].1),
{
    let mut out: Vec<Content> = Vec::new();
    let mut i: usize = 0;
    proof {
        reveal_strlit("user");
        reveal_strlit("assistant");
        assert("user"@[0] != "assistant"@[0]);
    }
    while i < ms.len()
        invariant
            i <= ms@.len(),
            out@.len() == history_turns(ms@.take(i as int)).len(),
            forall|k: int| 0 <= k < out@.len() ==> is_text_content(#[trigger] out@[k], history_turns(ms@.take(i as int))[k].0, history_turns(ms@.take(i as int))[k].1),
        decreases ms@.len() - i,
    {
        assert(ms@.take(i as int + 1).drop_last() =~= ms@.take(i as int));
        let m = &ms[i];
        if str_eq(m.role.as_str(), "user") {
            out.push(text_content("user", m.content.as_str()));
        } else if str_eq(m.role.as_str(), "assistant") {
            out.push(text_content("model", m.content.as_str()));
        }
        i = i + 1;
    }
    assert(ms@.take(ms@.len() as int) =~= ms@);
    out
}

/// A user message whose first part is the text `prompt`.
pub open spec fn user_prompt_content(c: Content, prompt: Seq<char>) -> bool {
    &&& c.role matches Some(r) && r@ == "user"@
    &&& c.parts@.len() > 0
    &&& c.parts@[0].text matches Some(t) && t@ == prompt
}

/// Whether the content is a user message whose first part is the text `prompt`.
fn is_user_prompt(c: &Content, prompt: &str) -> (b: bool)
    ensures
        b == user_prompt_content(*c, prompt@),
{
    let user = match &c.role {
        Some(r) => str_eq(r.as_str(), "user"),
        None => false,
    };
    if !user || c.parts.len() == 0 {
        return false;
    }
    match &c.parts[0].text {
        Some(t) => str_eq(t.as_str(), prompt),
        None => false,
    }
}

/// The contents of a request with the history `history` and the prompt
/// `prompt` (see [`request_turns`]).
pub fn build_contents(history: Option<&Vec<ChatMessage>>, prompt: &str) -> (r: Vec<Content>)
    ensures
        r@.len() == request_turns(
            match history {
                Some(h) => Some(h@),
                None => None,
            },
            prompt@,
        ).len(),
        forall|i: int| 0 <= i < r@.len() ==> {
            let t = request_turns(
                match history {
                    Some(h) => Some(h@),
                    None => None,
                },
                prompt@,
            );
            is_text_content(#[trigger] r@[i], t[i].0, t[i].1)
        },
{
    let ghost hv = match history {
        Some(h) => Some(h@),
        None => None,
    };
    let mut contents = match history {
        Some(h) => history_contents(h),
        None => vec![text_content("user", prompt)],
    };
    let ghost base = match hv {
        Some(ms) => history_turns(ms),
        None => seq![("user"@, prompt@)],
    };
    assert(contents@.len() == base.len());
    assert(forall|i: int| 0 <= i < contents@.len() ==> is_text_content(#[trigger] contents@[i], base[i].0, base[i].1));
    let n = contents.len();
    if n > 0 && is_user_prompt(&contents[n - 1], prompt) {
        assert(is_text_content(contents@[n - 1], base[n - 1].0, base[n - 1].1));
        assert(base.last() == ("user"@, prompt@));
        contents.pop();
    } else if n > 0 {
        assert(is_text_content(contents@[n - 1], base[n - 1].0, base[n - 1].1));
        assert(base.last() != ("user"@, prompt@));
    }
    contents.push(text_content("user", prompt));
    contents
}

/// What the function's result is made of before it is sent back: for a
/// `command.` function its `result` member when it has one.
pub open spec fn processed_result_spec(function_name: Seq<char>, result: Json) -> Json {
    if has_prefix(function_name, "command."@) {
        match json_get(result, "result"@) {
            Some(inner) => inner,
            None => result,
        }
    } else {
        result
    }
}

/// What is sent back as a function's result (see [`processed_result_spec`]).
pub fn processed_result(function_name: &str, result: &JsonValue) -> (r: JsonValue)
    ensures
        r@ == processed_result_spec(function_name@, result@),
{
    if str_starts_with(function_name, "command.") {
        match result.get("result") {
            Some(inner) => inner.copy(),
            None => result.copy(),
        }
    } else {
        result.copy()
    }
}

/// The conversation that is sent again with a function's answer: the turns
/// of the history, or the prompt alone when there is none.
pub open spec fn resent_turns(history: Option<Seq<ChatMessage>>, prompt: Seq<char>) -> Seq<(Seq<char>, Seq<char>)> {
    match history {
        Some(h) => history_turns(h),
        None => seq![("user"@, prompt)],
    }
}

/// The contents that answer a function call: the turns, the model's call,
/// then the user's function response.
pub fn function_response_contents(
    history: Option<&Vec<ChatMessage>>,
    prompt: &str,
    call: &FunctionCall,
    result: &JsonValue,
) -> (r: Vec<Content>)
    ensures
        ({
            let turns = resent_turns(
                match history {
                    Some(h) => Some(h@),
                    None => None,
                },
                prompt@,
            );
            &&& r@.len() == turns.len() + 2
            &&& forall|i: int| 0 <= i < turns.len() ==> is_text_content(#[trigger] r@[i], turns[i].0, turns[i].1)
        }),
        r@[r@.len() - 2].parts@[0].text is None,
        r@[r@.len() - 1].parts@[0].text is None,
        r@[r@.len() - 2].parts@[0].function_response is None,
        r@[r@.len() - 1].parts@[0].function_call is None,
        r@[r@.len() - 2].role matches Some(x) && x@ == "model"@,
        r@[r@.len() - 2].parts@.len() == 1,
        r@[r@.len() - 2].parts@[0].function_call matches Some(c) && c.name@ == call.name@ && c.arguments@ == call.arguments@,
        r@[r@.len() - 1].role matches Some(x) && x@ == "user"@,
        r@[r@.len() - 1].parts@.len() == 1,
        r@[r@.len() - 1].parts@[0].function_response matches Some(f) && f.name@ == call.name@
            && f.response@ == processed_result_spec(call.name@, result@),
{
    let mut contents = match history {
        Some(h) => history_contents(h),
        None => vec![text_content("user", prompt)],
    };
    let ghost before = contents@;
    let call_part = Part { text: None, function_call: Some(call.copy()), function_response: None };
    contents.push(Content { parts: vec![call_part], role: Some(String::from_str("model")) });
    let processed = processed_result(call.name.as_str(), result);
    let resp = Part::function_response(call.name.clone(), processed);
    contents.push(Content { parts: vec![resp], role: Some(String::from_str("user")) });
    assert(forall|i: int| 0 <= i < before.len() ==> contents@[i] == before[i]);
    contents
}

/// The functions offered to the model: none when there are no
/// definitions, else one tool with all of them.
pub fn function_tools(defs: Option<Vec<FunctionDef>>) -> (r: Option<Vec<Tool>>)
    ensures
        match defs {
            Some(d) => if d@.len() == 0 {
                r is None
            } else {
                r matches Some(t) && t@.len() == 1 && t@[0].function_declarations == d
            },
            None => r is None,
        },
{
    match defs {
        Some(d) => {
            if d.len() == 0 {
                None
            } else {
                Some(vec![Tool { function_declarations: d }])
            }
        },
        None => None,
    }
}

/// What the model's answer comes to.
pub enum ApiAnswer {
    /// Neither text nor calls.
    Empty,
    /// Text and the function calls asked for.
    Reply(String, Vec<FunctionCall>),
    /// Only text, although functions were offered: the calls may be
    /// written in the text.
    TextOnly(String),
}

/// The text of the parts put together, and the calls they ask for.
pub open spec fn parts_text(parts: Seq<(Option<String>, Option<FunctionCall>)>) -> Seq<char>
    decreases parts.len(),
{
    if parts.len() == 0 {
        Seq::empty()
    } else {
        parts_text(parts.drop_last()) + match parts.last().0 {
            Some(t) => t@,
            None => Seq::empty(),
        }
    }
}

/// A function call as a name and arguments.
pub open spec fn call_view(c: FunctionCall) -> (Seq<char>, Json) {
    (c.name@, c.arguments@)
}

/// The calls among the parts, in order.
pub open spec fn parts_calls(parts: Seq<(Option<String>, Option<FunctionCall>)>) -> Seq<(Seq<char>, Json)>
    decreases parts.len(),
{
    if parts.len() == 0 {
        Seq::empty()
    } else {
        parts_calls(parts.drop_last()) + match parts.last().1 {
            Some(c) => seq![call_view(c)],
            None => Seq::empty(),
        }
    }
}

/// Reads the parts of the first candidate: their text put together and
/// the calls in order; `functions_offered` says whether functions were
/// offered, in which case text without calls may hold calls in writing.
pub fn read_answer(parts: &Vec<(Option<String>, Option<FunctionCall>)>, functions_offered: bool) -> (r: ApiAnswer)
    ensures
        parts_text(parts@).len() == 0 && parts_calls(parts@).len() == 0 ==> r is Empty,
        parts_calls(parts@).len() == 0 && parts_text(parts@).len() > 0 && functions_offered ==> (r matches ApiAnswer::TextOnly(t) && t@ == parts_text(parts@)),
        parts_calls(parts@).len() == 0 && parts_text(parts@).len() > 0 && !functions_offered ==> (r matches ApiAnswer::Reply(t, c) && t@ == parts_text(parts@) && c@.len() == 0),
        parts_calls(parts@).len() > 0 ==> (r matches ApiAnswer::Reply(t, c) && t@ == parts_text(parts@) && c@.map_values(|x: FunctionCall| call_view(x)) == parts_calls(parts@)),
{
    let mut text = String::new();
    let mut calls: Vec<FunctionCall> = Vec::new();
    let mut i: usize = 0;
    while i < parts.len()
        invariant
            i <= parts@.len(),
            text@ == parts_text(parts@.take(i as int)),
            calls@.map_values(|x: FunctionCall| call_view(x)) == parts_calls(parts@.take(i as int)),
        decreases parts@.len() - i,
    {
        assert(parts@.take(i as int + 1).drop_last() =~= parts@.take(i as int));
        match &parts[i].0 {
            Some(t) => {
                text.append(t.as_str());
            },
            None => {
                assert(text@ + Seq::<char>::empty() =~= text@);
            },
        }
        match &parts[i].1 {
            Some(c) => {
                calls.push(c.copy());
                assert(calls@.map_values(|x: FunctionCall| call_view(x)) =~= parts_calls(parts@.take(i as int + 1)));
            },
            None => {
                assert(calls@.map_values(|x: FunctionCall| call_view(x)) =~= parts_calls(parts@.take(i as int + 1)));
            },
        }
        i = i + 1;
    }
    assert(parts@.take(parts@.len() as int) =~= parts@);
    if calls.len() == 0 && text.as_str().is_empty() {
        ApiAnswer::Empty
    } else if calls.len() == 0 && functions_offered {
        ApiAnswer::TextOnly(text)
    } else {
        ApiAnswer::Reply(text, calls)
    }
}

/// `candidates[0].content.parts[0].text` of an answer, as `Value`
/// indexing reads it.
pub open spec fn candidate_text(resp: Json) -> Option<Seq<char>> {
    match json_get(resp, "candidates"@) {
        Some(Json::Array(cs)) => if cs.len() > 0 {
            match json_get(cs[0], "content"@) {
                Some(content) => match json_get(content, "parts"@) {
                    Some(Json::Array(ps)) => if ps.len() > 0 {
                        get_str(ps[0], "text"@)
                    } else {
                        None
                    },
                    _ => None,
                },
                None => None,
            }
        } else {
            None
        },
        _ => None,
    }
}

/// The text of the first candidate's first part (see [`candidate_text`]).
pub fn first_candidate_text(response: &JsonValue) -> (r: Option<String>)
    ensures
        match r {
            Some(t) => candidate_text(response@) == Some(t@),
            None => candidate_text(response@) is None,
        },
{
    let cs = match response.get("candidates") {
        Some(v) => v,
        None => return None,
    };
    let arr = match cs.as_array() {
        Some(a) => a,
        None => return None,
    };
    if arr.len() == 0 {
        return None;
    }
    let c = &arr[0];
    let content = match c.get("content") {
        Some(v) => v,
        None => return None,
    };
    let ps = match content.get("parts") {
        Some(v) => v,
        None => return None,
    };
    let parr = match ps.as_array() {
        Some(a) => a,
        None => return None,
    };
    if parr.len() == 0 {
        return None;
    }
    match crate::mcp::servers::protocol::arg_str(&parr[0], "text") {
        Some(t) => Some(t),
        None => None,
    }
}

} // verus!
