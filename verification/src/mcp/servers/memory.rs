//! The store of the memory server: memories are appended as they come, and
//! read back by key, by tag or all together.

pub mod main;

use vstd::prelude::*;
use crate::clock::unix_timestamp;
use crate::mcp::servers::memory_records::{
    copy_memories, has_key, has_tag, lacks_key, memories_view, memories_with_key,
    memories_with_tag, remove_key, Memory, MemoryView,
};
use crate::text::{cat2, cat5, dec, has_infix, lowercase, str_contains, str_eq, strings_view, to_lower, usize_to_string};
use crate::json::{get_str, json_object, json_str, member, members_view, Json, JsonValue};
use crate::mcp::rpc::{Request, Response};
use crate::mcp::servers::memory_records::{memories_json, memories_to_json};
use crate::mcp::servers::protocol::{
    arg_strings, arg_strings_spec, error_response, initialize_result, initialize_result_json,
    is_result, members_schema, param, params_members, plain_param, replies, request_id, result_response, schema_json,
    schema_to_json, tool, tool_names, tool_view, tool_views, resource_views, ParamKind, ParamSpec, Reply, ResourceSpec, ToolSpec,
};

verus! {

/// The memories of the store, in the order they were added.
pub struct MemoryStore {
    pub memories: Vec<Memory>,
}

impl View for MemoryStore {
    type V = Seq<MemoryView>;

    open spec fn view(&self) -> Seq<MemoryView> {
        memories_view(self.memories@)
    }
}

impl MemoryStore {
    /// An empty store.
    pub fn new() -> (s: Self)
        ensures
            s@ == Seq::<MemoryView>::empty(),
    {
        MemoryStore { memories: Vec::new() }
    }

    /// Appends a memory written at the second `now`.
    pub fn add_memory_at(&mut self, key: &str, value: &str, tags: Vec<String>, now: u64) -> (r: Result<(), String>)
        ensures
            r is Ok,
            final(self)@ == old(self)@.push(
                MemoryView { key: key@, value: value@, timestamp: now, tags: strings_view(tags@) },
            ),
    {
        let m = Memory { key: String::from_str(key), value: String::from_str(value), timestamp: now, tags };
        self.memories.push(m);
        assert(self@ =~= old(self)@.push(
            MemoryView { key: key@, value: value@, timestamp: now, tags: strings_view(tags@) },
        ));
        Ok(())
    }

    /// Appends a memory written now, at the clock's time.
    pub fn add_memory(&mut self, key: &str, value: &str, tags: Vec<String>) -> (r: Result<(), String>)
        ensures
            r is Ok,
            final(self)@.len() == old(self)@.len() + 1,
            final(self)@.drop_last() == old(self)@,
            final(self)@.last().key == key@,
            final(self)@.last().value == value@,
            final(self)@.last().tags == strings_view(tags@),
    {
        let now = unix_timestamp();
        self.add_memory_at(key, value, tags, now)
    }

    /// The memories with the key `key`, in store order.
    pub fn get_by_key(&self, key: &str) -> (r: Vec<Memory>)
        ensures
            memories_view(r@) == self@.filter(has_key(key@)),
    {
        memories_with_key(&self.memories, key)
    }

    /// The memories that carry the tag `tag`, in store order.
    pub fn get_by_tag(&self, tag: &str) -> (r: Vec<Memory>)
        ensures
            memories_view(r@) == self@.filter(has_tag(tag@)),
    {
        memories_with_tag(&self.memories, tag)
    }

    /// All memories, in store order.
    pub fn get_all_memories(&self) -> (r: Vec<Memory>)
        ensures
            memories_view(r@) == self@,
    {
        copy_memories(&self.memories)
    }

    /// Deletes the memories with the key `key` and says how many there were.
    pub fn delete_by_key(&mut self, key: &str) -> (n: usize)
        ensures
            final(self)@ == old(self)@.filter(lacks_key(key@)),
            n == old(self)@.len() - final(self)@.len(),
    {
        remove_key(&mut self.memories, key)
    }
}

/// A memory matches a query when the query, lowercased, occurs in its
/// lowercased value or key.
pub open spec fn matches_query(q: Seq<char>) -> spec_fn(MemoryView) -> bool {
    |m: MemoryView| has_infix(lowercase(m.value), lowercase(q)) || has_infix(lowercase(m.key), lowercase(q))
}

/// A search finds a memory of the store exactly when the lowercased query
/// occurs in the memory's lowercased key or in its lowercased value: a match
/// in the key alone is enough, and a memory matching neither is never found.
pub proof fn lemma_search_matches_key_or_value(ms: Seq<MemoryView>, q: Seq<char>, m: MemoryView)
    ensures
        ms.filter(matches_query(q)).contains(m) <==> (ms.contains(m) && (has_infix(lowercase(m.key), lowercase(q))
            || has_infix(lowercase(m.value), lowercase(q)))),
{
    if ms.filter(matches_query(q)).contains(m) {
        ms.lemma_filter_contains_rev(matches_query(q), m);
        let i = choose|i: int| 0 <= i < ms.filter(matches_query(q)).len() && ms.filter(matches_query(q))[i] == m;
        ms.lemma_filter_pred(matches_query(q), i);
    }
    if ms.contains(m) && (has_infix(lowercase(m.key), lowercase(q)) || has_infix(lowercase(m.value), lowercase(q))) {
        let i = choose|i: int| 0 <= i < ms.len() && ms[i] == m;
        ms.lemma_filter_contains(matches_query(q), i);
    }
}

/// The memories of `v` that match the query `q`, in order.
pub fn memories_matching(v: &Vec<Memory>, q: &str) -> (r: Vec<Memory>)
    ensures
        memories_view(r@) == memories_view(v@).filter(matches_query(q@)),
{
    let lq = to_lower(q);
    let mut r: Vec<Memory> = Vec::new();
    let mut i: usize = 0;
    assert(memories_view(v@.take(0)) =~= Seq::<MemoryView>::empty());
    proof {
        reveal(Seq::filter);
    }
    while i < v.len()
        invariant
            i <= v@.len(),
            lq@ == lowercase(q@),
            memories_view(r@) == memories_view(v@.take(i as int)).filter(matches_query(q@)),
        decreases v@.len() - i,
    {
        let ghost before = memories_view(v@.take(i as int));
        assert(memories_view(v@.take(i as int + 1)) =~= before.push(v@[i as int]@));
        proof {
            before.lemma_filter_push(v@[i as int]@, matches_query(q@));
        }
        let lv = to_lower(v[i].value.as_str());
        let lk = to_lower(v[i].key.as_str());
        if str_contains(lv.as_str(), lq.as_str()) || str_contains(lk.as_str(), lq.as_str()) {
            let c = v[i].copy();
            let ghost old_r = r@;
            r.push(c);
            assert(memories_view(r@) =~= memories_view(old_r).push(c@));
        }
        i = i + 1;
    }
    assert(v@.take(v@.len() as int) =~= v@);
    r
}

/// The number of different keys in `ms`.
pub open spec fn distinct_keys_count(ms: Seq<MemoryView>) -> nat
    decreases ms.len(),
{
    if ms.len() == 0 {
        0
    } else {
        let rest = ms.drop_last();
        distinct_keys_count(rest) + if (exists|j: int| 0 <= j < rest.len() && #[trigger] rest[j].key == ms.last().key) {
            0nat
        } else {
            1nat
        }
    }
}

/// The number of different keys among the memories.
pub fn count_distinct_keys(v: &Vec<Memory>) -> (n: usize)
    ensures
        n == distinct_keys_count(memories_view(v@)),
{
    let mut n: usize = 0;
    let mut i: usize = 0;
    while i < v.len()
        invariant
            i <= v@.len(),
            n <= i,
            n == distinct_keys_count(memories_view(v@.take(i as int))),
        decreases v@.len() - i,
    {
        let ghost pre = memories_view(v@.take(i as int + 1));
        assert(pre.drop_last() =~= memories_view(v@.take(i as int)));
        let mut seen = false;
        let mut j: usize = 0;
        while j < i
            invariant
                i < v@.len(),
                j <= i,
                seen == exists|k: int| 0 <= k < j && #[trigger] v@[k].key@ == v@[i as int].key@,
            decreases i - j,
        {
            if str_eq(v[j].key.as_str(), v[i].key.as_str()) {
                seen = true;
            }
            j = j + 1;
        }
        proof {
            let rest = pre.drop_last();
            if seen {
                let k = choose|k: int| 0 <= k < i && #[trigger] v@[k].key@ == v@[i as int].key@;
                assert(rest[k].key == pre.last().key);
            } else {
                assert forall|k: int| 0 <= k < rest.len() implies #[trigger] rest[k].key != pre.last().key by {
                    assert(rest[k].key == v@[k].key@);
                }
            }
        }
        if !seen {
            n = n + 1;
        }
        i = i + 1;
    }
    assert(v@.take(v@.len() as int) =~= v@);
    n
}

/// The names of the memory server's tools.
pub open spec fn memory_tool_names() -> Seq<Seq<char>> {
    seq![
        "store_memory"@,
        "retrieve_memory"@,
        "retrieve_by_tag"@,
        "list_all_memories"@,
        "delete_memory"@,
        "get_relevant_memories"@,
    ]
}

/// The tools of the memory server.
pub fn memory_tools() -> (r: Vec<ToolSpec>)
    ensures
        tool_names(r@) == memory_tool_names(),
        tool_views(r@) == memory_tool_views(false),
{
    memory_tools_for(false)
}

/// The tools of a memory server: names, descriptions and schemas; the
/// stand-alone server's relevance tool also asks for an API key.
pub open spec fn memory_tool_views(standalone: bool) -> Seq<(Seq<char>, Seq<char>, Json)> {
    seq![
        ("store_memory"@, "Store a new memory in the persistent memory store"@, members_schema(seq![("key"@, plain_param(ParamKind::Str, "Unique identifier for the memory"@)), ("value"@, plain_param(ParamKind::Str, "Content of the memory to store"@)), ("tags"@, plain_param(ParamKind::StrArray, "Optional tags to categorize the memory"@))], Some(seq!["key"@, "value"@]))),
        ("retrieve_memory"@, "Retrieve memories by key"@, members_schema(seq![("key"@, plain_param(ParamKind::Str, "Key to search for"@))], Some(seq!["key"@]))),
        ("retrieve_by_tag"@, "Retrieve memories by tag"@, members_schema(seq![("tag"@, plain_param(ParamKind::Str, "Tag to search for"@))], Some(seq!["tag"@]))),
        ("list_all_memories"@, "List all stored memories"@, members_schema(Seq::empty(), Some(Seq::empty()))),
        ("delete_memory"@, "Delete a memory by key"@, members_schema(seq![("key"@, plain_param(ParamKind::Str, "Key of the memory to delete"@))], Some(seq!["key"@]))),
        if standalone {
            ("get_relevant_memories"@, "Get memories relevant to a query using Gemini-2.0-flash"@, members_schema(seq![("query"@, plain_param(ParamKind::Str, "Query to find relevant memories for"@)), ("api_key"@, plain_param(ParamKind::Str, "Gemini API key for model access"@))], Some(seq!["query"@, "api_key"@])))
        } else {
            ("get_relevant_memories"@, "Get memories relevant to a query"@, members_schema(seq![("query"@, plain_param(ParamKind::Str, "Query to find relevant memories for"@))], Some(seq!["query"@])))
        },
    ]
}

/// The tools of a memory server; the stand-alone one asks for an API key
/// with which it consults a model for relevant memories.
pub(crate) fn memory_tools_for(standalone: bool) -> (r: Vec<ToolSpec>)
    ensures
        tool_names(r@) == memory_tool_names(),
        tool_views(r@) == memory_tool_views(standalone),
{
    let ghost views = memory_tool_views(standalone);
    let p0 = vec![param("key", ParamKind::Str, "Unique identifier for the memory"), param("value", ParamKind::Str, "Content of the memory to store"), param("tags", ParamKind::StrArray, "Optional tags to categorize the memory")];
    let q0 = vec![String::from_str("key"), String::from_str("value")];
    assert(params_members(p0@) =~~= views[0].2->Object_0[1].1->Object_0);
    assert(strings_view(q0@) =~= seq!["key"@, "value"@]);
    let t0 = tool("store_memory", "Store a new memory in the persistent memory store", p0, Some(q0));
    assert(tool_view(t0) =~~= views[0]);
    let p1 = vec![param("key", ParamKind::Str, "Key to search for")];
    let q1 = vec![String::from_str("key")];
    assert(params_members(p1@) =~~= views[1].2->Object_0[1].1->Object_0);
    assert(strings_view(q1@) =~= seq!["key"@]);
    let t1 = tool("retrieve_memory", "Retrieve memories by key", p1, Some(q1));
    assert(tool_view(t1) =~~= views[1]);
    let p2 = vec![param("tag", ParamKind::Str, "Tag to search for")];
    let q2 = vec![String::from_str("tag")];
    assert(params_members(p2@) =~~= views[2].2->Object_0[1].1->Object_0);
    assert(strings_view(q2@) =~= seq!["tag"@]);
    let t2 = tool("retrieve_by_tag", "Retrieve memories by tag", p2, Some(q2));
    assert(tool_view(t2) =~~= views[2]);
    let p3: Vec<ParamSpec> = Vec::new();
    let q3: Vec<String> = Vec::new();
    assert(params_members(p3@) =~~= views[3].2->Object_0[1].1->Object_0);
    assert(strings_view(q3@) =~= Seq::<Seq<char>>::empty());
    let t3 = tool("list_all_memories", "List all stored memories", p3, Some(q3));
    assert(tool_view(t3) =~~= views[3]);
    let p4 = vec![param("key", ParamKind::Str, "Key of the memory to delete")];
    let q4 = vec![String::from_str("key")];
    assert(params_members(p4@) =~~= views[4].2->Object_0[1].1->Object_0);
    assert(strings_view(q4@) =~= seq!["key"@]);
    let t4 = tool("delete_memory", "Delete a memory by key", p4, Some(q4));
    assert(tool_view(t4) =~~= views[4]);
    let t5 = if standalone {
        let p6 = vec![param("query", ParamKind::Str, "Query to find relevant memories for"), param("api_key", ParamKind::Str, "Gemini API key for model access")];
        let q6 = vec![String::from_str("query"), String::from_str("api_key")];
        assert(params_members(p6@) =~~= views[5].2->Object_0[1].1->Object_0);
        assert(strings_view(q6@) =~= seq!["query"@, "api_key"@]);
        let t6 = tool("get_relevant_memories", "Get memories relevant to a query using Gemini-2.0-flash", p6, Some(q6));
        assert(tool_view(t6) =~~= views[5]);
        t6
    } else {
        let p7 = vec![param("query", ParamKind::Str, "Query to find relevant memories for")];
        let q7 = vec![String::from_str("query")];
        assert(params_members(p7@) =~~= views[5].2->Object_0[1].1->Object_0);
        assert(strings_view(q7@) =~= seq!["query"@]);
        let t7 = tool("get_relevant_memories", "Get memories relevant to a query", p7, Some(q7));
        assert(tool_view(t7) =~~= views[5]);
        t7
    };
    let r = vec![t0, t1, t2, t3, t4, t5];
    assert(tool_views(r@) =~~= views);
    assert(tool_names(r@) =~= memory_tool_names());
    r
}

/// The resources of the memory server.
pub fn memory_resources() -> (r: Vec<ResourceSpec>)
    ensures
        r@.len() == 2,
        r@[0].name@ == "memory_stats"@,
        r@[1].name@ == "memory_schema"@,
        resource_views(r@) == memory_resource_views(),
{
    let r = vec![
        ResourceSpec {
            name: String::from_str("memory_stats"),
            description: String::from_str("Get statistics about the memory store"),
        },
        ResourceSpec {
            name: String::from_str("memory_schema"),
            description: String::from_str("Get the schema of memory objects"),
        },
    ];
    assert(resource_views(r@) =~= memory_resource_views());
    r
}

/// The resources of the memory server: names and descriptions.
pub open spec fn memory_resource_views() -> Seq<(Seq<char>, Seq<char>)> {
    seq![
        ("memory_stats"@, "Get statistics about the memory store"@),
        ("memory_schema"@, "Get the schema of memory objects"@),
    ]
}

/// What a write to the store waits on before it is answered.
pub enum SavedChange {
    /// A memory was stored.
    Stored,
    /// `count` memories with `key` were deleted.
    Deleted { count: usize, key: String },
}

/// A reply still waiting for the store to be saved.
pub struct PendingReply {
    pub id: JsonValue,
    pub change: SavedChange,
}

/// The server's answer to one request.
pub enum Step {
    Reply(Response),
    /// Save the store, then answer with [`finish_save`].
    SaveThen(PendingReply),
}

/// The reply to a write once the save is done: success with a message, or
/// the save's error.
pub open spec fn saved_reply(change: SavedChange, saved: Result<(), Seq<char>>) -> Json {
    match (change, saved) {
        (SavedChange::Stored, Ok(())) => Json::Object(
            seq![("success"@, Json::Bool(true)), ("message"@, Json::Str("Memory stored successfully"@))],
        ),
        (SavedChange::Stored, Err(e)) => Json::Object(
            seq![("success"@, Json::Bool(false)), ("error"@, Json::Str("Failed to save memory store: "@ + e))],
        ),
        (SavedChange::Deleted { count, key }, Ok(())) => Json::Object(
            seq![
                ("success"@, Json::Bool(true)),
                ("deleted_count"@, Json::Number(dec(count as nat))),
                ("message"@, Json::Str("Deleted "@ + dec(count as nat) + " memories with key '"@ + key@ + "'"@)),
            ],
        ),
        (SavedChange::Deleted { .. }, Err(e)) => Json::Object(
            seq![
                ("success"@, Json::Bool(false)),
                ("error"@, Json::Str("Failed to save memory store after deletion: "@ + e)),
            ],
        ),
    }
}

/// Answers a write once the store's save is done (see [`saved_reply`]).
pub fn finish_save(p: PendingReply, saved: Result<(), String>) -> (r: Response)
    ensures
        is_result(
            r,
            p.id@,
            saved_reply(
                p.change,
                match saved {
                    Ok(()) => Ok(()),
                    Err(e) => Err(e@),
                },
            ),
        ),
{
    let PendingReply { id, change } = p;
    let ghost ch = change;
    let m = match (&change, &saved) {
        (SavedChange::Stored, Ok(())) => {
            let m = vec![member("success", JsonValue::Bool(true)), member("message", json_str("Memory stored successfully"))];
            assert(members_view(m@) =~= seq![("success"@, Json::Bool(true)), ("message"@, Json::Str("Memory stored successfully"@))]);
            m
        },
        (SavedChange::Stored, Err(e)) => {
            let m = vec![
                member("success", JsonValue::Bool(false)),
                member("error", JsonValue::Str(cat2("Failed to save memory store: ", e.as_str()))),
            ];
            assert(members_view(m@) =~= seq![("success"@, Json::Bool(false)), ("error"@, Json::Str("Failed to save memory store: "@ + e@))]);
            m
        },
        (SavedChange::Deleted { count, key }, Ok(())) => {
            let n = usize_to_string(*count);
            let m = vec![
                member("success", JsonValue::Bool(true)),
                member("deleted_count", JsonValue::Number(usize_to_string(*count))),
                member("message", JsonValue::Str(cat5("Deleted ", n.as_str(), " memories with key '", key.as_str(), "'"))),
            ];
            assert(members_view(m@) =~= seq![
                ("success"@, Json::Bool(true)),
                ("deleted_count"@, Json::Number(dec(*count as nat))),
                ("message"@, Json::Str("Deleted "@ + dec(*count as nat) + " memories with key '"@ + key@ + "'"@)),
            ]);
            m
        },
        (SavedChange::Deleted { .. }, Err(e)) => {
            let m = vec![
                member("success", JsonValue::Bool(false)),
                member("error", JsonValue::Str(cat2("Failed to save memory store after deletion: ", e.as_str()))),
            ];
            assert(members_view(m@) =~= seq![
                ("success"@, Json::Bool(false)),
                ("error"@, Json::Str("Failed to save memory store after deletion: "@ + e@)),
            ]);
            m
        },
    };
    result_response(id, json_object(m))
}

/// A text argument, or the empty text when it is missing or not a string.
pub open spec fn arg_or_empty(args: Json, key: Seq<char>) -> Seq<char> {
    match get_str(args, key) {
        Some(s) => s,
        None => Seq::empty(),
    }
}

/// A text argument, or the empty text (see [`arg_or_empty`]).
pub(crate) fn arg_text(args: &JsonValue, key: &str) -> (r: String)
    ensures
        r@ == arg_or_empty(args@, key@),
{
    match crate::mcp::servers::protocol::arg_str(args, key) {
        Some(s) => s,
        None => String::new(),
    }
}

/// How a reply waits on the store.
pub enum StepSpec {
    Reply(Reply),
    SaveStored,
    SaveDeleted(nat, Seq<char>),
}

/// `{"success": true, ...}` with the members `rest` after it.
pub open spec fn success_with(rest: Seq<(Seq<char>, Json)>) -> Json {
    Json::Object(seq![("success"@, Json::Bool(true))] + rest)
}

/// What running the tool `tool` with `args` does to the store `ms` at the
/// second `now`, and how it is answered.
pub open spec fn memory_tool_step(ms: Seq<MemoryView>, tool: Seq<char>, args: Json, now: u64) -> (Seq<MemoryView>, StepSpec) {
    if tool == "store_memory"@ {
        (
            ms.push(
                MemoryView {
                    key: arg_or_empty(args, "key"@),
                    value: arg_or_empty(args, "value"@),
                    timestamp: now,
                    tags: arg_strings_spec(args, "tags"@),
                },
            ),
            StepSpec::SaveStored,
        )
    } else if tool == "retrieve_memory"@ {
        (ms, StepSpec::Reply(Reply::Result(success_with(seq![("memories"@, memories_json(ms.filter(has_key(arg_or_empty(args, "key"@)))))]))))
    } else if tool == "retrieve_by_tag"@ {
        (ms, StepSpec::Reply(Reply::Result(success_with(seq![("memories"@, memories_json(ms.filter(has_tag(arg_or_empty(args, "tag"@)))))]))))
    } else if tool == "list_all_memories"@ {
        (ms, StepSpec::Reply(Reply::Result(success_with(seq![("memories"@, memories_json(ms))]))))
    } else if tool == "delete_memory"@ {
        let k = arg_or_empty(args, "key"@);
        let ms2 = ms.filter(lacks_key(k));
        (ms2, StepSpec::SaveDeleted((ms.len() - ms2.len()) as nat, k))
    } else if tool == "get_relevant_memories"@ {
        let q = arg_or_empty(args, "query"@);
        (
            ms,
            StepSpec::Reply(
                Reply::Result(
                    success_with(seq![("query"@, Json::Str(q)), ("memories"@, memories_json(ms.filter(matches_query(q))))]),
                ),
            ),
        )
    } else {
        (ms, StepSpec::Reply(Reply::Error(-32601i64, "Tool '"@ + tool + "' not found"@)))
    }
}

/// The arguments of a tool call: `args`, or an empty object.
pub open spec fn tool_args(params: Json) -> Json {
    match crate::json::json_get(params, "args"@) {
        Some(a) => a,
        None => Json::Object(Seq::empty()),
    }
}

/// `step` is how `s` goes on after the request.
pub open spec fn step_is(s: Step, id: Json, spec: StepSpec) -> bool {
    match spec {
        StepSpec::Reply(r) => s matches Step::Reply(resp) && replies(resp, id, r),
        StepSpec::SaveStored => s matches Step::SaveThen(p) && p.id@ == id && p.change is Stored,
        StepSpec::SaveDeleted(n, k) => s matches Step::SaveThen(p) && p.id@ == id && (
        p.change matches SavedChange::Deleted { count, key } && count == n && key@ == k),
    }
}

/// The id a request is answered with.
pub open spec fn answer_id(request: &Request) -> Json {
    match request.id {
        Some(i) => i@,
        None => Json::Null,
    }
}

/// The statistics of the store at `path`.
pub open spec fn stats_json(ms: Seq<MemoryView>, path: Seq<char>) -> Json {
    success_with(
        seq![
            ("total_memories"@, Json::Number(dec(ms.len()))),
            ("unique_keys"@, Json::Number(dec(distinct_keys_count(ms)))),
            ("store_path"@, Json::Str(path)),
        ],
    )
}

/// The parameters of the memory schema the server describes.
pub fn memory_schema_params() -> (r: Vec<ParamSpec>)
    ensures
        r@.len() == 4,
        r@[0].name@ == "key"@,
        r@[1].name@ == "value"@,
        r@[2].name@ == "timestamp"@,
        r@[3].name@ == "tags"@,
{
    vec![
        param("key", ParamKind::Str, "Unique identifier for the memory"),
        param("value", ParamKind::Str, "Content of the memory"),
        param("timestamp", ParamKind::Int, "Unix timestamp when the memory was created"),
        param("tags", ParamKind::StrArray, "Tags to categorize the memory"),
    ]
}

/// Handles one request of the memory server at the second `now`; the
/// store lives at `store_path`. Writes are answered once the store is saved.
pub fn handle_request(store: &mut MemoryStore, request: &Request, now: u64, store_path: &str) -> (s: Step)
    ensures
        request.method@ == "initialize"@ ==> final(store)@ == old(store)@ && (s matches Step::Reply(r)
            && exists|tools: Seq<ToolSpec>, resources: Seq<ResourceSpec>|
            tool_views(tools) == memory_tool_views(false) && resource_views(resources) == memory_resource_views()
                && #[trigger] is_result(
                r,
                answer_id(request),
                initialize_result_json("memory-mcp"@, "1.0.0"@, tools, "parameters"@, resources, true),
            )),
        request.method@ == "mcp/tool/execute"@ ==> match request.params {
            None => final(store)@ == old(store)@ && step_is(s, answer_id(request), StepSpec::Reply(Reply::Error(-32602i64, "Missing parameters for tool execution"@))),
            Some(p) => {
                let (ms2, st) = memory_tool_step(old(store)@, arg_or_empty(p@, "name"@), tool_args(p@), now);
                final(store)@ == ms2 && step_is(s, answer_id(request), st)
            },
        },
        request.method@ == "mcp/resource/get"@ ==> final(store)@ == old(store)@ && match request.params {
            None => step_is(s, answer_id(request), StepSpec::Reply(Reply::Error(-32602i64, "Missing parameters for resource request"@))),
            Some(p) => {
                let name = arg_or_empty(p@, "name"@);
                if name == "memory_stats"@ {
                    step_is(s, answer_id(request), StepSpec::Reply(Reply::Result(stats_json(old(store)@, store_path@))))
                } else if name == "memory_schema"@ {
                    s matches Step::Reply(r) && exists|ps: Seq<ParamSpec>, req: Seq<Seq<char>>| #[trigger] is_result(
                        r,
                        answer_id(request),
                        success_with(seq![("schema"@, schema_json(ps, Some(req)))]),
                    )
                } else {
                    step_is(s, answer_id(request), StepSpec::Reply(Reply::Error(-32601i64, "Resource '"@ + name + "' not found"@)))
                }
            },
        },
        request.method@ != "initialize"@ && request.method@ != "mcp/tool/execute"@ && request.method@
            != "mcp/resource/get"@ ==> final(store)@ == old(store)@ && step_is(
            s,
            answer_id(request),
            StepSpec::Reply(Reply::Error(-32601i64, "Method '"@ + request.method@ + "' not found"@)),
        ),
{
    proof {
        reveal_strlit("initialize");
        reveal_strlit("mcp/tool/execute");
        reveal_strlit("mcp/resource/get");
        assert("initialize"@[0] != "mcp/tool/execute"@[0]);
        assert("initialize"@[0] != "mcp/resource/get"@[0]);
        assert("mcp/tool/execute"@[4] != "mcp/resource/get"@[4]);
        reveal_strlit("store_memory");
        reveal_strlit("retrieve_memory");
        reveal_strlit("retrieve_by_tag");
        reveal_strlit("list_all_memories");
        reveal_strlit("delete_memory");
        reveal_strlit("get_relevant_memories");
        assert("retrieve_memory"@[9] != "retrieve_by_tag"@[9]);
        assert("memory_stats"@ != "memory_schema"@) by {
            reveal_strlit("memory_stats");
            reveal_strlit("memory_schema");
            assert("memory_stats"@[8] != "memory_schema"@[8]);
        }
    }
    let id = request_id(request);
    let m = request.method.as_str();
    if str_eq(m, "initialize") {
        let tools = memory_tools();
        let resources = memory_resources();
        let result = initialize_result("memory-mcp", "1.0.0", &tools, "parameters", &resources, true);
        let r = result_response(id, result);
        assert(is_result(r, answer_id(request), initialize_result_json("memory-mcp"@, "1.0.0"@, tools@, "parameters"@, resources@, true)));
        Step::Reply(r)
    } else if str_eq(m, "mcp/tool/execute") {
        match &request.params {
            None => Step::Reply(error_response(id, -32602, String::from_str("Missing parameters for tool execution"), None)),
            Some(p) => {
                let name = arg_text(p, "name");
                let args = match p.get("args") {
                    Some(a) => a.copy(),
                    None => json_object(Vec::new()),
                };
                assert(args@ == tool_args(p@)) by {
                    assert(crate::json::members_view(Seq::<(String, JsonValue)>::empty()) =~= Seq::<(Seq<char>, Json)>::empty());
                }
                let n = name.as_str();
                if str_eq(n, "store_memory") {
                    let key = arg_text(&args, "key");
                    let value = arg_text(&args, "value");
                    let tags = arg_strings(&args, "tags");
                    let _ = store.add_memory_at(key.as_str(), value.as_str(), tags, now);
                    Step::SaveThen(PendingReply { id, change: SavedChange::Stored })
                } else if str_eq(n, "retrieve_memory") {
                    let key = arg_text(&args, "key");
                    let found = store.get_by_key(key.as_str());
                    let mm = vec![member("success", JsonValue::Bool(true)), member("memories", memories_to_json(&found))];
                    assert(members_view(mm@) =~= seq![("success"@, Json::Bool(true))] + seq![("memories"@, memories_json(memories_view(found@)))]);
                    Step::Reply(result_response(id, json_object(mm)))
                } else if str_eq(n, "retrieve_by_tag") {
                    let tag = arg_text(&args, "tag");
                    let found = store.get_by_tag(tag.as_str());
                    let mm = vec![member("success", JsonValue::Bool(true)), member("memories", memories_to_json(&found))];
                    assert(members_view(mm@) =~= seq![("success"@, Json::Bool(true))] + seq![("memories"@, memories_json(memories_view(found@)))]);
                    Step::Reply(result_response(id, json_object(mm)))
                } else if str_eq(n, "list_all_memories") {
                    let all = store.get_all_memories();
                    let mm = vec![member("success", JsonValue::Bool(true)), member("memories", memories_to_json(&all))];
                    assert(members_view(mm@) =~= seq![("success"@, Json::Bool(true))] + seq![("memories"@, memories_json(memories_view(all@)))]);
                    Step::Reply(result_response(id, json_object(mm)))
                } else if str_eq(n, "delete_memory") {
                    let key = arg_text(&args, "key");
                    let count = store.delete_by_key(key.as_str());
                    Step::SaveThen(PendingReply { id, change: SavedChange::Deleted { count, key } })
                } else if str_eq(n, "get_relevant_memories") {
                    let query = arg_text(&args, "query");
                    let found = memories_matching(&store.memories, query.as_str());
                    let mm = vec![
                        member("success", JsonValue::Bool(true)),
                        member("query", json_str(query.as_str())),
                        member("memories", memories_to_json(&found)),
                    ];
                    assert(members_view(mm@) =~= seq![("success"@, Json::Bool(true))] + seq![("query"@, Json::Str(query@)), ("memories"@, memories_json(memories_view(found@)))]);
                    Step::Reply(result_response(id, json_object(mm)))
                } else {
                    Step::Reply(error_response(id, -32601, crate::text::cat3("Tool '", n, "' not found"), None))
                }
            },
        }
    } else if str_eq(m, "mcp/resource/get") {
        match &request.params {
            None => Step::Reply(error_response(id, -32602, String::from_str("Missing parameters for resource request"), None)),
            Some(p) => {
                let name = arg_text(p, "name");
                if str_eq(name.as_str(), "memory_stats") {
                    let total = store.memories.len();
                    let unique = count_distinct_keys(&store.memories);
                    let mm = vec![
                        member("success", JsonValue::Bool(true)),
                        member("total_memories", JsonValue::Number(usize_to_string(total))),
                        member("unique_keys", JsonValue::Number(usize_to_string(unique))),
                        member("store_path", json_str(store_path)),
                    ];
                    assert(members_view(mm@) =~= seq![("success"@, Json::Bool(true))] + seq![
                        ("total_memories"@, Json::Number(dec(store@.len()))),
                        ("unique_keys"@, Json::Number(dec(distinct_keys_count(store@)))),
                        ("store_path"@, Json::Str(store_path@)),
                    ]);
                    let r = result_response(id, json_object(mm));
                    assert(replies(r, answer_id(request), Reply::Result(stats_json(old(store)@, store_path@))));
                    Step::Reply(r)
                } else if str_eq(name.as_str(), "memory_schema") {
                    let ps = memory_schema_params();
                    let req = Some(vec![String::from_str("key"), String::from_str("value"), String::from_str("timestamp")]);
                    let schema = schema_to_json(&ps, &req);
                    let mm = vec![member("success", JsonValue::Bool(true)), member("schema", schema)];
                    assert(members_view(mm@) =~= seq![("success"@, Json::Bool(true))] + seq![("schema"@, schema@)]);
                    let r = result_response(id, json_object(mm));
                    let ghost rq = match req {
                        Some(v) => strings_view(v@),
                        None => Seq::empty(),
                    };
                    assert(is_result(r, answer_id(request), success_with(seq![("schema"@, schema_json(ps@, Some(rq)))])));
                    Step::Reply(r)
                } else {
                    Step::Reply(error_response(id, -32601, crate::text::cat3("Resource '", name.as_str(), "' not found"), None))
                }
            },
        }
    } else {
        Step::Reply(error_response(id, -32601, crate::text::cat3("Method '", m, "' not found"), None))
    }
}

} // verus!
