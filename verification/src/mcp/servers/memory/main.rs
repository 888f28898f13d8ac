//! The stand-alone memory server: one JSON request per line, the same store
//! as its library twin, and a model consulted for the memories that matter
//! to a query.

use vstd::prelude::*;

pub use crate::mcp::servers::memory::MemoryStore;
use crate::json::{get_str, json_get, json_object, json_str, json_u64, member, members_view, Json, JsonValue};
use crate::mcp::rpc::{Request, Response};
use crate::mcp::servers::memory::{answer_id, memory_tool_names, memory_tool_views, memory_tools_for};
use crate::mcp::servers::memory_records::{
    has_key, has_tag, lacks_key, memories_json, memories_to_json, memories_view, Memory, MemoryView,
};
use crate::mcp::servers::protocol::{
    arg_str, arg_strings, arg_strings_spec, error_response, initialize_result, initialize_result_json, is_error,
    is_result, param, replies, request_id, result_response, schema_json, schema_to_json, texts_json, texts_to_json,
    resource_views, tool_names, tool_views, ParamKind, ParamSpec, Reply, ResourceSpec, ToolSpec,
};
use crate::memory_broker::{bracketed, bracketed_spec, bracketed_text, join_strings, join_with, Bracketed};
use crate::text::{cat2, cat4, dec, str_eq, strings_view, usize_to_string};
use crate::reply::{parse_string_array, string_array};

verus! {

/// What the server does after a request.
pub enum LineStep {
    /// Write this answer.
    Reply(Response),
    /// Write this answer, then stop with the error.
    Stop(Response, String),
    /// Save the store, then answer `id` with `result`.
    SaveThen { id: JsonValue, result: JsonValue },
    /// Ask the model with `api_key` which of `memories` matter to `query`,
    /// then answer `id` with [`relevant_reply`].
    AskModel { id: JsonValue, query: String, api_key: String, memories: Vec<Memory> },
}

/// The mathematical form of a [`LineStep`], its id aside.
pub enum LineStepSpec {
    Reply(Reply),
    /// Answer with the error `code` and `message`, then stop with `message`.
    Stop(i64, Seq<char>),
    Save(Json),
    Ask(Seq<char>, Seq<char>, Seq<MemoryView>),
}

/// `s` is the step `spec`, answering `id`.
pub open spec fn line_step_is(s: LineStep, id: Json, spec: LineStepSpec) -> bool {
    match spec {
        LineStepSpec::Reply(r) => s matches LineStep::Reply(resp) && replies(resp, id, r),
        LineStepSpec::Stop(c, m) => s matches LineStep::Stop(resp, e) && is_error(resp, id, c, m) && e@ == m,
        LineStepSpec::Save(j) => s matches LineStep::SaveThen { id: i, result } && i@ == id && result@ == j,
        LineStepSpec::Ask(q, k, ms) => s matches LineStep::AskModel { id: i, query, api_key, memories } && i@ == id
            && query@ == q && api_key@ == k && memories_view(memories@) == ms,
    }
}

/// A list of memories with their number.
pub open spec fn listing_json(ms: Seq<MemoryView>) -> Json {
    Json::Object(seq![("memories"@, memories_json(ms)), ("count"@, Json::Number(dec(ms.len())))])
}

/// A list of memories with their number (see [`listing_json`]).
pub fn listing(v: &Vec<Memory>) -> (r: JsonValue)
    ensures
        r@ == listing_json(memories_view(v@)),
{
    let m = vec![member("memories", memories_to_json(v)), member("count", json_u64(v.len() as u64))];
    assert(members_view(m@) =~= seq![("memories"@, memories_json(memories_view(v@))), ("count"@, Json::Number(dec(v@.len())))]);
    json_object(m)
}

/// A missing argument: the error is answered and ends the server.
pub open spec fn missing(what: Seq<char>) -> LineStepSpec {
    LineStepSpec::Stop(-32602i64, "Missing "@ + what + " parameter"@)
}

/// What a call of the tool `tool` with `args` does to the store `ms` at
/// the second `now`, and how it goes on.
pub open spec fn line_tool_step(ms: Seq<MemoryView>, tool: Seq<char>, args: Json, now: u64) -> (Seq<MemoryView>, LineStepSpec) {
    if tool == "store_memory"@ {
        match (get_str(args, "key"@), get_str(args, "value"@)) {
            (None, _) => (ms, missing("key"@)),
            (Some(_), None) => (ms, missing("value"@)),
            (Some(k), Some(v)) => (
                ms.push(MemoryView { key: k, value: v, timestamp: now, tags: arg_strings_spec(args, "tags"@) }),
                LineStepSpec::Save(
                    Json::Object(seq![("success"@, Json::Bool(true)), ("message"@, Json::Str("Memory stored with key: "@ + k))]),
                ),
            ),
        }
    } else if tool == "retrieve_memory"@ {
        match get_str(args, "key"@) {
            None => (ms, missing("key"@)),
            Some(k) => (ms, LineStepSpec::Reply(Reply::Result(listing_json(ms.filter(has_key(k)))))),
        }
    } else if tool == "retrieve_by_tag"@ {
        match get_str(args, "tag"@) {
            None => (ms, missing("tag"@)),
            Some(t) => (ms, LineStepSpec::Reply(Reply::Result(listing_json(ms.filter(has_tag(t)))))),
        }
    } else if tool == "list_all_memories"@ {
        (ms, LineStepSpec::Reply(Reply::Result(listing_json(ms))))
    } else if tool == "delete_memory"@ {
        match get_str(args, "key"@) {
            None => (ms, missing("key"@)),
            Some(k) => {
                let ms2 = ms.filter(lacks_key(k));
                let n = (ms.len() - ms2.len()) as nat;
                (
                    ms2,
                    LineStepSpec::Save(
                        Json::Object(
                            seq![
                                ("success"@, Json::Bool(true)),
                                ("deleted_count"@, Json::Number(dec(n))),
                                ("message"@, Json::Str("Deleted "@ + dec(n) + " memories with key: "@ + k)),
                            ],
                        ),
                    ),
                )
            },
        }
    } else if tool == "get_relevant_memories"@ {
        match (get_str(args, "query"@), get_str(args, "api_key"@)) {
            (None, _) => (ms, missing("query"@)),
            (Some(_), None) => (ms, missing("API key"@)),
            (Some(q), Some(k)) => (ms, LineStepSpec::Ask(q, k, ms)),
        }
    } else {
        (ms, LineStepSpec::Reply(Reply::Error(-32601i64, "Tool not found: "@ + tool)))
    }
}

/// Whether some memory of `ms` carries the tag `t`.
pub open spec fn tagged(ms: Seq<MemoryView>, t: Seq<char>) -> bool {
    exists|i: int| 0 <= i < ms.len() && #[trigger] ms[i].tags.contains(t)
}

/// The statistics of the store: its size, and its tags, each once, in
/// the order `tags` gives them.
pub open spec fn line_stats_json(ms: Seq<MemoryView>, tags: Seq<Seq<char>>) -> Json {
    Json::Object(
        seq![
            ("total_memories"@, Json::Number(dec(ms.len()))),
            ("unique_tags"@, Json::Number(dec(tags.len()))),
            ("tags"@, Json::Array(texts_json(tags))),
        ],
    )
}

/// The tags of the memories, each once, in the order they first occur.
pub fn distinct_tags(v: &Vec<Memory>) -> (r: Vec<String>)
    ensures
        strings_view(r@).no_duplicates(),
        forall|t: Seq<char>| strings_view(r@).contains(t) <==> tagged(memories_view(v@), t),
{
    let ghost ms = memories_view(v@);
    let mut out: Vec<String> = Vec::new();
    let mut i: usize = 0;
    while i < v.len()
        invariant
            i <= v@.len(),
            ms == memories_view(v@),
            strings_view(out@).no_duplicates(),
            forall|t: Seq<char>| strings_view(out@).contains(t) <==> tagged(ms.take(i as int), t),
        decreases v@.len() - i,
    {
        let tags = &v[i].tags;
        let ghost before = strings_view(out@);
        let mut j: usize = 0;
        while j < tags.len()
            invariant
                i < v@.len(),
                j <= tags@.len(),
                *tags == v@[i as int].tags,
                ms == memories_view(v@),
                strings_view(out@).no_duplicates(),
                forall|t: Seq<char>| strings_view(out@).contains(t) <==> (tagged(ms.take(i as int), t) || strings_view(tags@).take(j as int).contains(t)),
            decreases tags@.len() - j,
        {
            let ghost sv = strings_view(out@);
            let found = crate::mcp::servers::memory_records::contains_string(&out, tags[j].as_str());
            if !found {
                out.push(tags[j].clone());
                assert(strings_view(out@) =~= sv.push(tags@[j as int]@));
                assert forall|a: int, b: int| 0 <= a < b < strings_view(out@).len() implies strings_view(out@)[a] != strings_view(out@)[b] by {
                    if b == sv.len() as int {
                        assert(sv[a] == strings_view(out@)[a]);
                        assert(sv.contains(sv[a]));
                    }
                }
            }
            assert(strings_view(tags@).take(j as int + 1) =~= strings_view(tags@).take(j as int).push(tags@[j as int]@));
            assert forall|t: Seq<char>| strings_view(tags@).take(j as int + 1).contains(t) <==> (strings_view(tags@).take(j as int).contains(t) || t == tags@[j as int]@) by {
                if strings_view(tags@).take(j as int + 1).contains(t) {
                    let k = choose|k: int| 0 <= k < strings_view(tags@).take(j as int + 1).len() && #[trigger] strings_view(tags@).take(j as int + 1)[k] == t;
                    if k < strings_view(tags@).take(j as int).len() {
                        assert(strings_view(tags@).take(j as int)[k] == t);
                    }
                }
                if strings_view(tags@).take(j as int).contains(t) {
                    let k = choose|k: int| 0 <= k < strings_view(tags@).take(j as int).len() && #[trigger] strings_view(tags@).take(j as int)[k] == t;
                    assert(strings_view(tags@).take(j as int + 1)[k] == t);
                }
                if t == tags@[j as int]@ {
                    assert(strings_view(tags@).take(j as int + 1)[strings_view(tags@).take(j as int).len() as int] == t);
                }
            }
            assert forall|t: Seq<char>| strings_view(out@).contains(t) <==> (sv.contains(t) || (!found && t == tags@[j as int]@)) by {
                if !found {
                    assert(strings_view(out@) =~= sv.push(tags@[j as int]@));
                    if strings_view(out@).contains(t) {
                        let k = choose|k: int| 0 <= k < strings_view(out@).len() && #[trigger] strings_view(out@)[k] == t;
                        if k < sv.len() {
                            assert(sv[k] == t);
                        }
                    }
                    if sv.contains(t) {
                        let k = choose|k: int| 0 <= k < sv.len() && #[trigger] sv[k] == t;
                        assert(strings_view(out@)[k] == t);
                    }
                    if t == tags@[j as int]@ {
                        assert(strings_view(out@)[sv.len() as int] == t);
                    }
                }
            }
            assert forall|t: Seq<char>| strings_view(out@).contains(t) <==> (tagged(ms.take(i as int), t) || strings_view(tags@).take(j as int + 1).contains(t)) by {
                assert(sv.contains(t) <==> (tagged(ms.take(i as int), t) || strings_view(tags@).take(j as int).contains(t)));
                assert(strings_view(tags@).take(j as int + 1).contains(t) <==> (strings_view(tags@).take(j as int).contains(t) || t == tags@[j as int]@));
                if found {
                    assert(sv.contains(tags@[j as int]@));
                }
            }
            assert(forall|t: Seq<char>| strings_view(out@).contains(t) <==> (tagged(ms.take(i as int), t) || strings_view(tags@).take(j as int + 1).contains(t)));
            j = j + 1;
        }
        assert(strings_view(tags@).take(tags@.len() as int) =~= ms[i as int].tags);
        assert forall|t: Seq<char>| tagged(ms.take(i as int + 1), t) <==> (tagged(ms.take(i as int), t) || ms[i as int].tags.contains(t)) by {
            if tagged(ms.take(i as int + 1), t) {
                let k = choose|k: int| 0 <= k < ms.take(i as int + 1).len() && #[trigger] ms.take(i as int + 1)[k].tags.contains(t);
                if k < i {
                    assert(ms.take(i as int)[k] == ms.take(i as int + 1)[k]);
                }
            }
            if tagged(ms.take(i as int), t) {
                let k = choose|k: int| 0 <= k < ms.take(i as int).len() && #[trigger] ms.take(i as int)[k].tags.contains(t);
                assert(ms.take(i as int + 1)[k] == ms.take(i as int)[k]);
            }
            if ms[i as int].tags.contains(t) {
                assert(ms.take(i as int + 1)[i as int] == ms[i as int]);
            }
        }
        i = i + 1;
    }
    assert(ms.take(v@.len() as int) =~= ms);
    out
}

/// The statistics of the store (see [`line_stats_json`]), with its tags
/// each once in the order they first occur.
pub fn line_stats(store: &MemoryStore) -> (r: JsonValue)
    ensures
        exists|tags: Seq<Seq<char>>|
            tags.no_duplicates() && (forall|t: Seq<char>| tags.contains(t) <==> tagged(store@, t)) && r@
                == #[trigger] line_stats_json(store@, tags),
{
    let tags = distinct_tags(&store.memories);
    let m = vec![
        member("total_memories", json_u64(store.memories.len() as u64)),
        member("unique_tags", json_u64(tags.len() as u64)),
        member("tags", texts_to_json(&tags)),
    ];
    assert(members_view(m@) =~= seq![
        ("total_memories"@, Json::Number(dec(store@.len()))),
        ("unique_tags"@, Json::Number(dec(strings_view(tags@).len()))),
        ("tags"@, Json::Array(texts_json(strings_view(tags@)))),
    ]);
    let r = json_object(m);
    assert(r@ == line_stats_json(store@, strings_view(tags@)));
    r
}

/// The parameters of the memory schema the stand-alone server describes.
pub fn line_schema_params() -> (r: Vec<ParamSpec>)
    ensures
        r@.len() == 4,
        r@[0].name@ == "key"@,
        r@[1].name@ == "value"@,
        r@[2].name@ == "timestamp"@,
        r@[3].name@ == "tags"@,
{
    vec![
        param("key", ParamKind::Str, "Unique identifier for the memory"),
        param("value", ParamKind::Str, "Content of the memory"),
        param("timestamp", ParamKind::Int, "Unix timestamp when the memory was created"),
        param("tags", ParamKind::StrArray, "Tags for categorizing the memory"),
    ]
}

/// A text argument, if it is there and a string.
pub open spec fn text_arg(args: Json, key: Seq<char>) -> Option<Seq<char>> {
    get_str(args, key)
}

/// The answer to an error that does not stop the server.
pub open spec fn line_error(code: i64, message: Seq<char>) -> LineStepSpec {
    LineStepSpec::Reply(Reply::Error(code, message))
}

/// Handles one request of the stand-alone memory server at the second
/// `now`. Writes are answered once the store is saved; a missing argument
/// is answered and ends the server.
pub fn handle_line_request(store: &mut MemoryStore, request: &Request, now: u64) -> (s: LineStep)
    ensures
        request.method@ == "initialize"@ ==> final(store)@ == old(store)@ && (s matches LineStep::Reply(r)
            && exists|tools: Seq<ToolSpec>, resources: Seq<ResourceSpec>|
            tool_views(tools) == memory_tool_views(true) && resource_views(resources)
                == crate::mcp::servers::memory::memory_resource_views() && #[trigger] is_result(
                r,
                answer_id(request),
                initialize_result_json("memory-mcp"@, "1.0.0"@, tools, "schema"@, resources, false),
            )),
        request.method@ == "mcp/tool/execute"@ ==> match request.params {
            None => final(store)@ == old(store)@ && line_step_is(s, answer_id(request), line_error(-32602i64, "Missing params"@)),
            Some(p) => match (text_arg(p@, "tool_name"@), json_get(p@, "arguments"@)) {
                (None, _) => final(store)@ == old(store)@ && line_step_is(
                    s,
                    answer_id(request),
                    line_error(-32602i64, "Missing tool_name parameter"@),
                ),
                (Some(_), None) => final(store)@ == old(store)@ && line_step_is(
                    s,
                    answer_id(request),
                    line_error(-32602i64, "Missing arguments parameter"@),
                ),
                (Some(name), Some(args)) => {
                    let (ms2, st) = line_tool_step(old(store)@, name, args, now);
                    final(store)@ == ms2 && line_step_is(s, answer_id(request), st)
                },
            },
        },
        request.method@ == "mcp/resource/get"@ ==> final(store)@ == old(store)@ && match request.params {
            None => line_step_is(s, answer_id(request), line_error(-32602i64, "Missing params"@)),
            Some(p) => match text_arg(p@, "resource_name"@) {
                None => line_step_is(s, answer_id(request), line_error(-32602i64, "Missing resource_name parameter"@)),
                Some(name) => if name == "memory_stats"@ {
                    s matches LineStep::Reply(r) && exists|tags: Seq<Seq<char>>|
                        tags.no_duplicates() && (forall|t: Seq<char>| tags.contains(t) <==> tagged(old(store)@, t))
                            && #[trigger] is_result(r, answer_id(request), line_stats_json(old(store)@, tags))
                } else if name == "memory_schema"@ {
                    s matches LineStep::Reply(r) && exists|ps: Seq<ParamSpec>|
                        ps.len() == 4 && ps[0].name@ == "key"@ && ps[1].name@ == "value"@ && ps[2].name@ == "timestamp"@
                            && ps[3].name@ == "tags"@ && #[trigger] is_result(r, answer_id(request), schema_json(ps, None))
                } else {
                    line_step_is(s, answer_id(request), line_error(-32601i64, "Resource not found: "@ + name))
                },
            },
        },
        request.method@ != "initialize"@ && request.method@ != "mcp/tool/execute"@ && request.method@
            != "mcp/resource/get"@ ==> final(store)@ == old(store)@ && line_step_is(
            s,
            answer_id(request),
            line_error(-32601i64, "Method not found: "@ + request.method@),
        ),
{
    proof {
        reveal_strlit("initialize");
        reveal_strlit("mcp/tool/execute");
        reveal_strlit("mcp/resource/get");
        assert("initialize"@[0] != "mcp/tool/execute"@[0]);
        assert("initialize"@[0] != "mcp/resource/get"@[0]);
        assert("mcp/tool/execute"@[4] != "mcp/resource/get"@[4]);
        reveal_strlit("store_memory");
        reveal_strlit("retrieve_memory");
        reveal_strlit("retrieve_by_tag");
        reveal_strlit("list_all_memories");
        reveal_strlit("delete_memory");
        reveal_strlit("get_relevant_memories");
        assert("retrieve_memory"@[9] != "retrieve_by_tag"@[9]);
        reveal_strlit("memory_stats");
        reveal_strlit("memory_schema");
        assert("memory_stats"@[8] != "memory_schema"@[8]);
        reveal_strlit("Missing ");
        reveal_strlit(" parameter");
        reveal_strlit("Missing key parameter");
        reveal_strlit("Missing value parameter");
        reveal_strlit("Missing tag parameter");
        reveal_strlit("Missing query parameter");
        reveal_strlit("Missing API key parameter");
        reveal_strlit("key");
        reveal_strlit("value");
        reveal_strlit("tag");
        reveal_strlit("query");
        reveal_strlit("API key");
    }
    let id = request_id(request);
    let m = request.method.as_str();
    if str_eq(m, "initialize") {
        let tools = memory_tools_for(true);
        let resources = crate::mcp::servers::memory::memory_resources();
        let result = initialize_result("memory-mcp", "1.0.0", &tools, "schema", &resources, false);
        let r = result_response(id, result);
        assert(is_result(r, answer_id(request), initialize_result_json("memory-mcp"@, "1.0.0"@, tools@, "schema"@, resources@, false)));
        LineStep::Reply(r)
    } else if str_eq(m, "mcp/tool/execute") {
        let p = match &request.params {
            None => return LineStep::Reply(error_response(id, -32602, String::from_str("Missing params"), None)),
            Some(p) => p,
        };
        let name = match arg_str(p, "tool_name") {
            None => return LineStep::Reply(error_response(id, -32602, String::from_str("Missing tool_name parameter"), None)),
            Some(n) => n,
        };
        let args = match p.get("arguments") {
            None => return LineStep::Reply(error_response(id, -32602, String::from_str("Missing arguments parameter"), None)),
            Some(a) => a,
        };
        line_tool(store, id, name.as_str(), args, now)
    } else if str_eq(m, "mcp/resource/get") {
        let p = match &request.params {
            None => return LineStep::Reply(error_response(id, -32602, String::from_str("Missing params"), None)),
            Some(p) => p,
        };
        let name = match arg_str(p, "resource_name") {
            None => return LineStep::Reply(error_response(id, -32602, String::from_str("Missing resource_name parameter"), None)),
            Some(n) => n,
        };
        let n = name.as_str();
        if str_eq(n, "memory_stats") {
            let stats = line_stats(store);
            LineStep::Reply(result_response(id, stats))
        } else if str_eq(n, "memory_schema") {
            let ps = line_schema_params();
            LineStep::Reply(result_response(id, schema_to_json(&ps, &None)))
        } else {
            LineStep::Reply(error_response(id, -32601, cat2("Resource not found: ", n), None))
        }
    } else {
        LineStep::Reply(error_response(id, -32601, cat2("Method not found: ", m), None))
    }
}

/// A stop on a missing argument.
fn stop_missing(id: JsonValue, message: &str) -> (s: LineStep)
    ensures
        line_step_is(s, id@, LineStepSpec::Stop(-32602i64, message@)),
{
    LineStep::Stop(error_response(id, -32602, String::from_str(message), None), String::from_str(message))
}

/// The call of the tool `name` with `args` (see [`line_tool_step`]).
fn line_tool(store: &mut MemoryStore, id: JsonValue, name: &str, args: &JsonValue, now: u64) -> (s: LineStep)
    ensures
        ({
            let (ms2, st) = line_tool_step(old(store)@, name@, args@, now);
            final(store)@ == ms2 && line_step_is(s, id@, st)
        }),
{
    proof {
        reveal_strlit("store_memory");
        reveal_strlit("retrieve_memory");
        reveal_strlit("retrieve_by_tag");
        reveal_strlit("list_all_memories");
        reveal_strlit("delete_memory");
        reveal_strlit("get_relevant_memories");
        reveal_strlit("Missing ");
        reveal_strlit(" parameter");
        reveal_strlit("Missing key parameter");
        reveal_strlit("Missing value parameter");
        reveal_strlit("Missing tag parameter");
        reveal_strlit("Missing query parameter");
        reveal_strlit("Missing API key parameter");
        reveal_strlit("key");
        reveal_strlit("value");
        reveal_strlit("tag");
        reveal_strlit("query");
        reveal_strlit("API key");
        assert("Missing "@ + "key"@ + " parameter"@ =~= "Missing key parameter"@);
        assert("Missing "@ + "value"@ + " parameter"@ =~= "Missing value parameter"@);
        assert("Missing "@ + "tag"@ + " parameter"@ =~= "Missing tag parameter"@);
        assert("Missing "@ + "query"@ + " parameter"@ =~= "Missing query parameter"@);
        assert("Missing "@ + "API key"@ + " parameter"@ =~= "Missing API key parameter"@);
    }
    if str_eq(name, "store_memory") {
        let key = match arg_str(args, "key") {
            None => return stop_missing(id, "Missing key parameter"),
            Some(k) => k,
        };
        let value = match arg_str(args, "value") {
            None => return stop_missing(id, "Missing value parameter"),
            Some(v) => v,
        };
        let tags = arg_strings(args, "tags");
        let _ = store.add_memory_at(key.as_str(), value.as_str(), tags, now);
        let m = vec![member("success", JsonValue::Bool(true)), member("message", JsonValue::Str(cat2("Memory stored with key: ", key.as_str())))];
        assert(members_view(m@) =~= seq![("success"@, Json::Bool(true)), ("message"@, Json::Str("Memory stored with key: "@ + key@))]);
        LineStep::SaveThen { id, result: json_object(m) }
    } else if str_eq(name, "retrieve_memory") {
        let key = match arg_str(args, "key") {
            None => return stop_missing(id, "Missing key parameter"),
            Some(k) => k,
        };
        let found = store.get_by_key(key.as_str());
        LineStep::Reply(result_response(id, listing(&found)))
    } else if str_eq(name, "retrieve_by_tag") {
        let tag = match arg_str(args, "tag") {
            None => return stop_missing(id, "Missing tag parameter"),
            Some(t) => t,
        };
        let found = store.get_by_tag(tag.as_str());
        LineStep::Reply(result_response(id, listing(&found)))
    } else if str_eq(name, "list_all_memories") {
        let all = store.get_all_memories();
        LineStep::Reply(result_response(id, listing(&all)))
    } else if str_eq(name, "delete_memory") {
        let key = match arg_str(args, "key") {
            None => return stop_missing(id, "Missing key parameter"),
            Some(k) => k,
        };
        let count = store.delete_by_key(key.as_str());
        let n = usize_to_string(count);
        let m = vec![
            member("success", JsonValue::Bool(true)),
            member("deleted_count", json_u64(count as u64)),
            member("message", JsonValue::Str(cat4("Deleted ", n.as_str(), " memories with key: ", key.as_str()))),
        ];
        assert(members_view(m@) =~= seq![
            ("success"@, Json::Bool(true)),
            ("deleted_count"@, Json::Number(dec(count as nat))),
            ("message"@, Json::Str("Deleted "@ + dec(count as nat) + " memories with key: "@ + key@)),
        ]);
        LineStep::SaveThen { id, result: json_object(m) }
    } else if str_eq(name, "get_relevant_memories") {
        let query = match arg_str(args, "query") {
            None => return stop_missing(id, "Missing query parameter"),
            Some(q) => q,
        };
        let api_key = match arg_str(args, "api_key") {
            None => return stop_missing(id, "Missing API key parameter"),
            Some(k) => k,
        };
        let memories = store.get_all_memories();
        LineStep::AskModel { id, query, api_key, memories }
    } else {
        LineStep::Reply(error_response(id, -32601, cat2("Tool not found: ", name), None))
    }
}

// --- Asking the model which memories matter ---

/// How a memory is listed for the model.
pub open spec fn retrieval_line(m: MemoryView) -> Seq<char> {
    "- Key: \""@ + m.key + "\", Value: \""@ + m.value + "\", Tags: ["@ + join_with(m.tags, ", "@) + "]"@
}

/// The prompt that asks the model for the keys of the memories `ms` that
/// matter to `query`.
pub open spec fn retrieval_prompt_spec(ms: Seq<MemoryView>, query: Seq<char>) -> Seq<char> {
    "You are a memory retrieval system that determines what stored information is relevant to a user's query.\n        \n        STORED MEMORIES:\n        "@ + join_with(ms.map_values(|m: MemoryView| retrieval_line(m)), "\n"@) + "\n        \n        USER QUERY:\n        \""@ + query
        + "\"\n        \n        Task: Analyze the user's query and return ONLY the keys of memories that are directly relevant to answering this query.\n        Return the keys as a JSON array of strings, e.g., [\"key1\", \"key2\"]\n        If no memories are relevant, return an empty array: []\n        DO NOT include any explanation, just the JSON array."@
}

/// How a memory is listed for the model (see [`retrieval_line`]).
fn retrieval_line_of(m: &Memory) -> (r: String)
    ensures
        r@ == retrieval_line(m@),
{
    let tags = join_strings(&m.tags, ", ");
    let mut r = String::from_str("- Key: \"");
    r.append(m.key.as_str());
    r.append("\", Value: \"");
    r.append(m.value.as_str());
    r.append("\", Tags: [");
    r.append(tags.as_str());
    r.append("]");
    r
}

/// The prompt that asks the model which memories matter (see
/// [`retrieval_prompt_spec`]).
pub fn retrieval_prompt(memories: &Vec<Memory>, query: &str) -> (r: String)
    ensures
        r@ == retrieval_prompt_spec(memories_view(memories@), query@),
{
    let mut lines: Vec<String> = Vec::new();
    let mut i: usize = 0;
    while i < memories.len()
        invariant
            i <= memories@.len(),
            lines@.len() == i,
            forall|k: int| 0 <= k < i ==> (#[trigger] lines@[k])@ == retrieval_line(memories@[k]@),
        decreases memories@.len() - i,
    {
        lines.push(retrieval_line_of(&memories[i]));
        i = i + 1;
    }
    assert(strings_view(lines@) =~= memories_view(memories@).map_values(|m: MemoryView| retrieval_line(m)));
    let listed = join_strings(&lines, "\n");
    let mut r = String::from_str("You are a memory retrieval system that determines what stored information is relevant to a user's query.\n        \n        STORED MEMORIES:\n        ");
    r.append(listed.as_str());
    r.append("\n        \n        USER QUERY:\n        \"");
    r.append(query);
    r.append("\"\n        \n        Task: Analyze the user's query and return ONLY the keys of memories that are directly relevant to answering this query.\n        Return the keys as a JSON array of strings, e.g., [\"key1\", \"key2\"]\n        If no memories are relevant, return an empty array: []\n        DO NOT include any explanation, just the JSON array.");
    r
}

/// The body of the request to the model: one user turn with `prompt`.
pub open spec fn retrieval_body_json(prompt: Seq<char>) -> Json {
    Json::Object(
        seq![
            (
                "contents"@,
                Json::Array(
                    seq![
                        Json::Object(
                            seq![
                                ("role"@, Json::Str("user"@)),
                                ("parts"@, Json::Array(seq![Json::Object(seq![("text"@, Json::Str(prompt))])])),
                            ],
                        ),
                    ],
                ),
            ),
        ],
    )
}

/// The body of the request to the model (see [`retrieval_body_json`]).
pub fn retrieval_body(prompt: &str) -> (r: JsonValue)
    ensures
        r@ == retrieval_body_json(prompt@),
{
    let part = vec![member("text", json_str(prompt))];
    assert(members_view(part@) =~= seq![("text"@, Json::Str(prompt@))]);
    let part_j = json_object(part);
    let parts = vec![part_j];
    let turn = vec![member("role", json_str("user")), member("parts", JsonValue::Array(parts))];
    proof {
        crate::json::lemma_array_view(parts);
    }
    assert(members_view(turn@) =~= seq![
        ("role"@, Json::Str("user"@)),
        ("parts"@, Json::Array(seq![Json::Object(seq![("text"@, Json::Str(prompt@))])])),
    ]) by {
        assert(crate::json::items_view(parts@) =~= seq![part_j@]);
    }
    let turn_j = json_object(turn);
    let contents = vec![turn_j];
    proof {
        crate::json::lemma_array_view(contents);
        assert(crate::json::items_view(contents@) =~= seq![turn_j@]);
    }
    let top = vec![member("contents", JsonValue::Array(contents))];
    assert(members_view(top@) =~= seq![("contents"@, Json::Array(seq![turn_j@]))]);
    json_object(top)
}

/// The error when the model's answer holds no array of keys.
pub open spec fn keys_failure(error: Seq<char>) -> Seq<char> {
    "Failed to parse memory keys from response: "@ + error
}

/// The keys the model's answer `text` names: the answer read as a JSON
/// array of strings, or else the text from its first `[` to its last `]`
/// read so; when neither reads, the failure with the first error.
pub open spec fn reply_keys(text: Seq<char>) -> Result<Seq<Seq<char>>, Seq<char>> {
    match string_array(text) {
        Ok(keys) => Ok(keys),
        Err(e) => match bracketed_spec(text) {
            Bracketed::Slice(_) => match string_array(bracketed_text(text)) {
                Ok(keys) => Ok(keys),
                Err(_) => Err(keys_failure(e)),
            },
            _ => Err(keys_failure(e)),
        },
    }
}

/// The memories the model's answer `text` names by key (see
/// [`reply_keys`]), in store order, or the failure to read it. An answer
/// whose last `]` comes before its first `[` cannot be a JSON array, and
/// its slice cannot be taken, so it is left out.
pub fn relevant_from_reply(memories: &Vec<Memory>, text: &str) -> (r: Result<Vec<Memory>, String>)
    requires
        !(bracketed_spec(text@) is Reversed),
    ensures
        match reply_keys(text@) {
            Ok(keys) => r matches Ok(v) && memories_view(v@) == memories_view(memories@).filter(keyed_by(keys)),
            Err(e) => r matches Err(m) && m@ == e,
        },
{
    let keys = match parse_string_array(text) {
        Ok(k) => k,
        Err(e) => match bracketed(text) {
            Bracketed::Slice(t) => match parse_string_array(t.as_str()) {
                Ok(k) => k,
                Err(_) => return Err(cat2("Failed to parse memory keys from response: ", e.as_str())),
            },
            _ => return Err(cat2("Failed to parse memory keys from response: ", e.as_str())),
        },
    };
    Ok(memories_with_keys(memories, &keys))
}

/// The memories whose key is among `keys`.
pub open spec fn keyed_by(keys: Seq<Seq<char>>) -> spec_fn(MemoryView) -> bool {
    |m: MemoryView| keys.contains(m.key)
}

/// The memories whose key is among `keys`, in store order.
pub fn memories_with_keys(memories: &Vec<Memory>, keys: &Vec<String>) -> (r: Vec<Memory>)
    ensures
        memories_view(r@) == memories_view(memories@).filter(keyed_by(strings_view(keys@))),
{
    let mut r: Vec<Memory> = Vec::new();
    let mut i: usize = 0;
    assert(memories_view(memories@.take(0)) =~= Seq::<MemoryView>::empty());
    proof {
        reveal(Seq::filter);
    }
    while i < memories.len()
        invariant
            i <= memories@.len(),
            memories_view(r@) == memories_view(memories@.take(i as int)).filter(keyed_by(strings_view(keys@))),
        decreases memories@.len() - i,
    {
        assert(memories_view(memories@.take(i as int + 1)) =~= memories_view(memories@.take(i as int)).push(memories@[i as int]@));
        proof {
            memories_view(memories@.take(i as int)).lemma_filter_push(memories@[i as int]@, keyed_by(strings_view(keys@)));
        }
        if crate::mcp::servers::memory_records::contains_string(keys, memories[i].key.as_str()) {
            let c = memories[i].copy();
            let ghost old_r = r@;
            r.push(c);
            assert(memories_view(r@) =~= memories_view(old_r).push(c@));
        }
        i = i + 1;
    }
    assert(memories@.take(memories@.len() as int) =~= memories@);
    r
}

/// The answer to `id` once the model was consulted: the relevant memories
/// with their number, or, when that failed with `e`, the error
/// `Failed to get relevant memories: e`, which also ends the server.
pub fn relevant_reply(id: JsonValue, outcome: Result<Vec<Memory>, String>) -> (s: LineStep)
    ensures
        match outcome {
            Ok(v) => line_step_is(s, id@, LineStepSpec::Reply(Reply::Result(listing_json(memories_view(v@))))),
            Err(e) => line_step_is(s, id@, LineStepSpec::Stop(-32603i64, "Failed to get relevant memories: "@ + e@)),
        },
{
    match outcome {
        Ok(v) => LineStep::Reply(result_response(id, listing(&v))),
        Err(e) => {
            let msg = cat2("Failed to get relevant memories: ", e.as_str());
            let msg2 = cat2("Failed to get relevant memories: ", e.as_str());
            LineStep::Stop(error_response(id, -32603, msg, None), msg2)
        },
    }
}

/// The answer to `id` once the store was saved after a write (`Ok`), or
/// could not be (`Err` with the reason), which ends the server.
pub fn saved_reply(id: JsonValue, result: JsonValue, saved: Result<(), String>) -> (s: LineStep)
    ensures
        match saved {
            Ok(()) => line_step_is(s, id@, LineStepSpec::Reply(Reply::Result(result@))),
            Err(e) => line_step_is(s, id@, LineStepSpec::Stop(-32603i64, "Failed to save memory store: "@ + e@)),
        },
{
    match saved {
        Ok(()) => LineStep::Reply(result_response(id, result)),
        Err(e) => {
            let msg = cat2("Failed to save memory store: ", e.as_str());
            let msg2 = cat2("Failed to save memory store: ", e.as_str());
            LineStep::Stop(error_response(id, -32603, msg, None), msg2)
        },
    }
}

/// A memory the stand-alone server stores under a key is the last one that
/// a retrieval by that key lists.
pub proof fn lemma_line_store_then_retrieve(ms: Seq<MemoryView>, args: Json, now: u64)
    requires
        get_str(args, "key"@) is Some,
        get_str(args, "value"@) is Some,
    ensures
        ({
            let k = get_str(args, "key"@)->Some_0;
            let (ms2, _) = line_tool_step(ms, "store_memory"@, args, now);
            &&& ms2.filter(has_key(k)).len() > 0
            &&& ms2.filter(has_key(k)).last() == MemoryView {
                key: k,
                value: get_str(args, "value"@)->Some_0,
                timestamp: now,
                tags: arg_strings_spec(args, "tags"@),
            }
        }),
{
    let k = get_str(args, "key"@)->Some_0;
    let m = MemoryView { key: k, value: get_str(args, "value"@)->Some_0, timestamp: now, tags: arg_strings_spec(args, "tags"@) };
    ms.lemma_filter_push(m, has_key(k));
}

} // verus!
