//! The memory broker: it finds the memory server's tools among the host's
//! capabilities, lists the memories to the model, reads back which ones are
//! relevant to a query, and adds them to the query.

use vstd::prelude::*;
use crate::json::{get_str, json_as_u64, json_get, strings_of, Json, JsonValue};
use crate::mcp::rpc::Tool;
use crate::reply::{index_array, parse_index_array};
use crate::text::{
    before_char, cat2, cat3, chars_before, chars_of, dec, has_infix, has_prefix, lemma_before_char, str_contains,
    string_of, usize_to_string,
};

verus! {

/// The server and the tool of a capability named `server/tool...`: the
/// text before the first `/` and the text between it and the next one.
pub open spec fn name_parts(name: Seq<char>) -> (Seq<char>, Seq<char>) {
    let a = before_char(name, '/');
    (a, before_char(name.skip(a.len() + 1int), '/'))
}

/// The first tool whose name holds `marker` (such as `/list_all_memories`),
/// as its server and tool names.
pub open spec fn find_tool_spec(names: Seq<Seq<char>>, marker: Seq<char>) -> Option<(Seq<char>, Seq<char>)>
    decreases names.len(),
{
    if names.len() == 0 {
        None
    } else if has_infix(names[0], marker) {
        Some(name_parts(names[0]))
    } else {
        find_tool_spec(names.drop_first(), marker)
    }
}

/// The names of a list of tools.
pub open spec fn tool_names_of(tools: Seq<Tool>) -> Seq<Seq<char>> {
    tools.map_values(|t: Tool| t.name@)
}

/// The first tool whose name holds `marker` (see [`find_tool_spec`]); the
/// marker is expected to hold a `/`.
pub fn find_memory_tool(tools: &Vec<Tool>, marker: &str) -> (r: Option<(String, String)>)
    requires
        marker@.contains('/'),
    ensures
        match find_tool_spec(tool_names_of(tools@), marker@) {
            Some((s, t)) => r matches Some((a, b)) && a@ == s && b@ == t,
            None => r is None,
        },
{
    let ghost names = tool_names_of(tools@);
    let mut i: usize = 0;
    assert(names.skip(0) =~= names);
    while i < tools.len()
        invariant
            i <= tools@.len(),
            names == tool_names_of(tools@),
            marker@.contains('/'),
            find_tool_spec(names, marker@) == find_tool_spec(names.skip(i as int), marker@),
        decreases tools@.len() - i,
    {
        assert(names.skip(i as int).drop_first() =~= names.skip(i as int + 1));
        assert(names.skip(i as int)[0] == tools@[i as int].name@);
        let name = tools[i].name.as_str();
        if str_contains(name, marker) {
            let v = chars_of(name);
            proof {
                lemma_before_char(name@, '/');
                let k = choose|k: int| crate::text::occurs_at(name@, marker@, k);
                let j = choose|j: int| 0 <= j < marker@.len() && marker@[j] == '/';
                assert(name@.subrange(k, k + marker@.len())[j] == '/');
                assert(name@[k + j] == '/');
                assert(before_char(name@, '/').len() < name@.len());
            }
            let server = chars_before(&v, 0, '/');
            assert(v@.skip(0) =~= v@);
            let tool = chars_before(&v, server.len() + 1, '/');
            return Some((string_of(server.as_slice()), string_of(tool.as_slice())));
        }
        i = i + 1;
    }
    assert(names.skip(i as int) =~= Seq::<Seq<char>>::empty());
    None
}

/// The `memories` array of a server's answer, or none.
pub open spec fn memories_in(response: Json) -> Seq<Json> {
    match json_get(response, "memories"@) {
        Some(Json::Array(items)) => items,
        _ => Seq::empty(),
    }
}

/// The `memories` array of a server's answer (see [`memories_in`]).
pub fn memories_of(response: &JsonValue) -> (r: Vec<JsonValue>)
    ensures
        crate::json::items_view(r@) == memories_in(response@),
{
    match response.get("memories") {
        Some(m) => match m.as_array() {
            Some(items) => {
                let mut out: Vec<JsonValue> = Vec::new();
                let mut i: usize = 0;
                while i < items.len()
                    invariant
                        i <= items@.len(),
                        out@.len() == i,
                        forall|k: int| 0 <= k < i ==> (#[trigger] out@[k])@ == items@[k]@,
                    decreases items@.len() - i,
                {
                    out.push(items[i].copy());
                    i = i + 1;
                }
                assert(crate::json::items_view(out@) =~= crate::json::items_view(items@));
                out
            },
            None => Vec::new(),
        },
        None => Vec::new(),
    }
}

/// Texts joined with `sep` between them.
pub open spec fn join_with(parts: Seq<Seq<char>>, sep: Seq<char>) -> Seq<char>
    decreases parts.len(),
{
    if parts.len() == 0 {
        Seq::empty()
    } else if parts.len() == 1 {
        parts[0]
    } else {
        join_with(parts.drop_last(), sep) + sep + parts.last()
    }
}

/// Texts joined with `sep` between them (see [`join_with`]).
pub fn join_strings(parts: &Vec<String>, sep: &str) -> (r: String)
    ensures
        r@ == join_with(crate::text::strings_view(parts@), sep@),
{
    let ghost ps = crate::text::strings_view(parts@);
    let mut out = String::new();
    let mut i: usize = 0;
    while i < parts.len()
        invariant
            i <= parts@.len(),
            ps == crate::text::strings_view(parts@),
            out@ == join_with(ps.take(i as int), sep@),
        decreases parts@.len() - i,
    {
        let ghost pre = ps.take(i as int + 1);
        assert(pre.drop_last() =~= ps.take(i as int));
        if i > 0 {
            out.append(sep);
        }
        out.append(parts[i].as_str());
        proof {
            if i == 0 {
                assert(out@ =~= parts@[0]@);
            }
        }
        i = i + 1;
    }
    assert(ps.take(parts@.len() as int) =~= ps);
    out
}

/// The tags of a memory joined by `, `.
pub open spec fn tags_text(m: Json) -> Seq<char> {
    match json_get(m, "tags"@) {
        Some(Json::Array(items)) => join_with(strings_of(items), ", "@),
        _ => Seq::empty(),
    }
}

/// The tags of a memory joined by `, ` (see [`tags_text`]).
pub fn tags_of(m: &JsonValue) -> (r: String)
    ensures
        r@ == tags_text(m@),
{
    let tags = crate::mcp::servers::protocol::arg_strings(m, "tags");
    proof {
        match json_get(m@, "tags"@) {
            Some(Json::Array(items)) => {},
            _ => {
                assert(crate::text::strings_view(tags@) =~= Seq::<Seq<char>>::empty());
            },
        }
    }
    join_strings(&tags, ", ")
}

/// A memory as the relevance prompt lists it, numbered `i`:
/// `i: key="..." tags=[...] value="..."`; none without a key and a value.
pub open spec fn listed_memory(i: nat, m: Json) -> Option<Seq<char>> {
    match (get_str(m, "key"@), get_str(m, "value"@)) {
        (Some(k), Some(v)) => Some(dec(i) + ": key=\""@ + k + "\" tags=["@ + tags_text(m) + "] value=\""@ + v + "\""@),
        _ => None,
    }
}

/// The lines of the memories listed from number `first` on.
pub open spec fn listed_memories(ms: Seq<Json>, first: nat) -> Seq<Seq<char>>
    decreases ms.len(),
{
    if ms.len() == 0 {
        Seq::empty()
    } else {
        let rest = listed_memories(ms.drop_first(), first + 1);
        match listed_memory(first, ms[0]) {
            Some(l) => seq![l] + rest,
            None => rest,
        }
    }
}

/// The memories as the relevance prompt lists them, one per line.
pub fn format_memories(memories: &Vec<JsonValue>) -> (r: String)
    ensures
        r@ == join_with(listed_memories(crate::json::items_view(memories@), 0), "\n"@),
{
    let ghost ms = crate::json::items_view(memories@);
    let mut lines: Vec<String> = Vec::new();
    let mut i: usize = 0;
    assert(ms.skip(0) =~= ms);
    while i < memories.len()
        invariant
            i <= memories@.len(),
            ms == crate::json::items_view(memories@),
            listed_memories(ms, 0) == crate::text::strings_view(lines@) + listed_memories(ms.skip(i as int), i as nat),
        decreases memories@.len() - i,
    {
        let m = &memories[i];
        assert(ms.skip(i as int).drop_first() =~= ms.skip(i as int + 1));
        assert(ms.skip(i as int)[0] == m@);
        let key = crate::mcp::servers::protocol::arg_str(m, "key");
        let value = crate::mcp::servers::protocol::arg_str(m, "value");
        match (key, value) {
            (Some(k), Some(v)) => {
                let n = usize_to_string(i);
                let tags = tags_of(m);
                let mut line = cat3(n.as_str(), ": key=\"", k.as_str());
                line.append("\" tags=[");
                line.append(tags.as_str());
                line.append("] value=\"");
                line.append(v.as_str());
                line.append("\"");
                let ghost before = lines@;
                lines.push(line);
                assert(crate::text::strings_view(lines@) =~= crate::text::strings_view(before).push(line@));
                assert(crate::text::strings_view(before).push(line@) + listed_memories(ms.skip(i as int + 1), i as nat + 1)
                    =~= crate::text::strings_view(before) + (seq![line@] + listed_memories(ms.skip(i as int + 1), i as nat + 1)));
            },
            _ => {},
        }
        i = i + 1;
    }
    assert(ms.skip(i as int) =~= Seq::<Json>::empty());
    assert(crate::text::strings_view(lines@) + Seq::<Seq<char>>::empty() =~= crate::text::strings_view(lines@));
    join_strings(&lines, "\n")
}

/// The prompt that asks the model which memories are relevant to `query`.
pub open spec fn relevance_prompt_spec(query: Seq<char>, listed: Seq<char>) -> Seq<char> {
    "Given a user query and a list of memory items, determine which memories (if any) are RELEVANT to answering the query. Return the indices of relevant memories in JSON format.\n\nQUERY: \""@
        + query + "\"\n\nMEMORIES:\n"@ + listed
        + "\n\nYour task:\n1. Analyze each memory carefully for relevance to the query\n2. Consider both direct and indirect relevance\n3. A memory is relevant if it would help answer the query or provide important context\n4. Respond with JUST a JSON array of integers representing the 0-based indices of relevant memories\n5. If no memories are relevant, return an empty array []\n\nJSON Response:"@
}

/// The prompt that asks which memories are relevant to `query`.
pub fn relevance_prompt(query: &str, listed: &str) -> (r: String)
    ensures
        r@ == relevance_prompt_spec(query@, listed@),
{
    let mut p = String::from_str(
        "Given a user query and a list of memory items, determine which memories (if any) are RELEVANT to answering the query. Return the indices of relevant memories in JSON format.\n\nQUERY: \"",
    );
    p.append(query);
    p.append("\"\n\nMEMORIES:\n");
    p.append(listed);
    p.append(
        "\n\nYour task:\n1. Analyze each memory carefully for relevance to the query\n2. Consider both direct and indirect relevance\n3. A memory is relevant if it would help answer the query or provide important context\n4. Respond with JUST a JSON array of integers representing the 0-based indices of relevant memories\n5. If no memories are relevant, return an empty array []\n\nJSON Response:",
    );
    p
}

/// Where a JSON array might be in a model's text.
pub enum Bracketed {
    /// There is no `[`.
    NoStart,
    /// There is no `]`.
    NoEnd,
    /// The text from the first `[` to the last `]`, both included.
    Slice(String),
    /// The last `]` comes before the first `[`.
    Reversed,
}

/// The index of the last `c` in `s`, if any.
pub open spec fn last_index(s: Seq<char>, c: char) -> Option<int>
    decreases s.len(),
{
    if s.len() == 0 {
        None
    } else if s.last() == c {
        Some(s.len() - 1)
    } else {
        last_index(s.drop_last(), c)
    }
}

/// Where the array is (see [`Bracketed`]): the first `[` and the last `]`.
pub open spec fn bracketed_spec(s: Seq<char>) -> Bracketed {
    if !s.contains('[') {
        Bracketed::NoStart
    } else if last_index(s, ']') is None {
        Bracketed::NoEnd
    } else {
        let a = before_char(s, '[').len() as int;
        let b = last_index(s, ']')->Some_0;
        if b < a {
            Bracketed::Reversed
        } else {
            Bracketed::Slice(arbitrary())
        }
    }
}

/// The text of the slice `bracketed` finds, from the first `[` to the last `]`.
pub open spec fn bracketed_text(s: Seq<char>) -> Seq<char> {
    s.subrange(before_char(s, '[').len() as int, last_index(s, ']')->Some_0 + 1)
}

proof fn lemma_last_index(s: Seq<char>, c: char)
    ensures
        last_index(s, c) matches Some(i) ==> 0 <= i < s.len() && s[i] == c && forall|j: int| i < j < s.len() ==> s[j] != c,
        last_index(s, c) is None ==> forall|j: int| 0 <= j < s.len() ==> s[j] != c,
    decreases s.len(),
{
    if s.len() > 0 && s.last() != c {
        lemma_last_index(s.drop_last(), c);
        if last_index(s, c) is None {
            assert forall|j: int| 0 <= j < s.len() implies s[j] != c by {
                if j < s.len() - 1 {
                    assert(s[j] == s.drop_last()[j]);
                }
            }
        } else {
            let i = last_index(s, c)->Some_0;
            assert(s[i] == s.drop_last()[i]);
            assert forall|j: int| i < j < s.len() implies s[j] != c by {
                if j < s.len() - 1 {
                    assert(s[j] == s.drop_last()[j]);
                }
            }
        }
    }
}

/// Finds the array in a model's text (see [`bracketed_spec`]).
pub fn bracketed(text: &str) -> (r: Bracketed)
    ensures
        match bracketed_spec(text@) {
            Bracketed::NoStart => r is NoStart,
            Bracketed::NoEnd => r is NoEnd,
            Bracketed::Reversed => r is Reversed,
            Bracketed::Slice(_) => r matches Bracketed::Slice(t) && t@ == bracketed_text(text@),
        },
{
    let v = chars_of(text);
    let n = v.len();
    proof {
        lemma_before_char(text@, '[');
        lemma_last_index(text@, ']');
    }
    let mut a: usize = 0;
    while a < n && v[a] != '['
        invariant
            n == v@.len(),
            v@ == text@,
            a <= n,
            forall|k: int| 0 <= k < a ==> v@[k] != '[',
        decreases n - a,
    {
        a = a + 1;
    }
    if a == n {
        assert(!text@.contains('['));
        return Bracketed::NoStart;
    }
    assert(text@.contains('['));
    assert(before_char(text@, '[').len() == a) by {
        if before_char(text@, '[').len() < a {
            assert(v@[before_char(text@, '[').len() as int] == '[');
        } else if before_char(text@, '[').len() > a {
            assert(text@[a as int] != '[');
        }
    }
    let mut b: usize = n;
    while b > 0 && v[b - 1] != ']'
        invariant
            n == v@.len(),
            v@ == text@,
            b <= n,
            forall|k: int| b <= k < n ==> v@[k] != ']',
        decreases b,
    {
        b = b - 1;
    }
    if b == 0 {
        assert(last_index(text@, ']') is None) by {
            if last_index(text@, ']') is Some {
                let i = last_index(text@, ']')->Some_0;
                assert(v@[i] == ']');
            }
        }
        return Bracketed::NoEnd;
    }
    assert(last_index(text@, ']') == Some(b as int - 1)) by {
        if last_index(text@, ']') is None {
            assert(v@[b - 1] == ']');
        } else {
            let i = last_index(text@, ']')->Some_0;
            if i < b - 1 {
                assert(v@[b - 1] == ']');
            } else if i > b - 1 {
                assert(v@[i] == ']');
            }
        }
    }
    if b - 1 < a {
        return Bracketed::Reversed;
    }
    let mut out: Vec<char> = Vec::new();
    let mut k: usize = a;
    while k < b
        invariant
            n == v@.len(),
            a <= k <= b <= n,
            out@ =~= v@.subrange(a as int, k as int),
        decreases b - k,
    {
        out.push(v[k]);
        k = k + 1;
    }
    Bracketed::Slice(string_of(out.as_slice()))
}

/// The memories at the indices, in their order, skipping indices out of range.
pub open spec fn select_spec(ms: Seq<Json>, idx: Seq<usize>) -> Seq<Json>
    decreases idx.len(),
{
    if idx.len() == 0 {
        Seq::empty()
    } else {
        let rest = select_spec(ms, idx.drop_last());
        if idx.last() < ms.len() {
            rest.push(ms[idx.last() as int])
        } else {
            rest
        }
    }
}

/// The memories at the indices (see [`select_spec`]).
pub fn select_by_indices(memories: &Vec<JsonValue>, indices: &Vec<usize>) -> (r: Vec<JsonValue>)
    ensures
        crate::json::items_view(r@) == select_spec(crate::json::items_view(memories@), indices@),
{
    let ghost ms = crate::json::items_view(memories@);
    let mut out: Vec<JsonValue> = Vec::new();
    let mut i: usize = 0;
    while i < indices.len()
        invariant
            i <= indices@.len(),
            ms == crate::json::items_view(memories@),
            crate::json::items_view(out@) == select_spec(ms, indices@.take(i as int)),
        decreases indices@.len() - i,
    {
        assert(indices@.take(i as int + 1).drop_last() =~= indices@.take(i as int));
        let j = indices[i];
        if j < memories.len() {
            let ghost before = out@;
            out.push(memories[j].copy());
            assert(crate::json::items_view(out@) =~= crate::json::items_view(before).push(ms[j as int]));
        }
        i = i + 1;
    }
    assert(indices@.take(indices@.len() as int) =~= indices@);
    out
}

/// The numbers of `s` that fit a `usize`, as `usize`, in order: an index
/// that does not fit names no memory.
pub open spec fn usize_indices(s: Seq<u64>) -> Seq<usize>
    decreases s.len(),
{
    if s.len() == 0 {
        Seq::empty()
    } else {
        let rest = usize_indices(s.drop_last());
        if s.last() <= usize::MAX {
            rest.push(s.last() as usize)
        } else {
            rest
        }
    }
}

/// The indices the model's answer `text` names: the answer read as a JSON
/// array of unsigned numbers, or else the text from its first `[` to its
/// last `]` read so; none when neither reads.
pub open spec fn reply_indices(text: Seq<char>) -> Seq<u64> {
    match index_array(text) {
        Ok(v) => v,
        Err(_) => match bracketed_spec(text) {
            Bracketed::Slice(_) => match index_array(bracketed_text(text)) {
                Ok(v) => v,
                Err(_) => Seq::empty(),
            },
            _ => Seq::empty(),
        },
    }
}

/// The indices of the relevant memories that the model's answer `text`
/// gives (see [`reply_indices`] and [`usize_indices`]). An answer whose
/// last `]` comes before its first `[` cannot be a JSON array, and its
/// slice cannot be taken, so it is left out.
pub fn relevant_indices(text: &str) -> (r: Vec<usize>)
    requires
        !(bracketed_spec(text@) is Reversed),
    ensures
        r@ == usize_indices(reply_indices(text@)),
{
    let found = match parse_index_array(text) {
        Ok(v) => v,
        Err(_) => match bracketed(text) {
            Bracketed::Slice(t) => match parse_index_array(t.as_str()) {
                Ok(v) => v,
                Err(_) => Vec::new(),
            },
            _ => Vec::new(),
        },
    };
    assert(found@ == reply_indices(text@));
    let mut out: Vec<usize> = Vec::new();
    let mut i: usize = 0;
    while i < found.len()
        invariant
            i <= found@.len(),
            out@ == usize_indices(found@.take(i as int)),
        decreases found@.len() - i,
    {
        assert(found@.take(i as int + 1).drop_last() =~= found@.take(i as int));
        let x = found[i];
        if x <= usize::MAX as u64 {
            out.push(x as usize);
        }
        i = i + 1;
    }
    assert(found@.take(found@.len() as int) =~= found@);
    out
}

/// The memories the model's answer `text` picks from `memories` by index,
/// in the answer's order, indices out of range skipped.
pub fn relevant_memories(memories: &Vec<JsonValue>, text: &str) -> (r: Vec<JsonValue>)
    requires
        !(bracketed_spec(text@) is Reversed),
    ensures
        crate::json::items_view(r@) == select_spec(crate::json::items_view(memories@), usize_indices(reply_indices(text@))),
{
    let indices = relevant_indices(text);
    select_by_indices(memories, &indices)
}

/// A memory as the enhanced query shows it: `• key = value [tags: ...]`.
pub open spec fn shown_memory(m: Json) -> Option<Seq<char>> {
    match (get_str(m, "key"@), get_str(m, "value"@)) {
        (Some(k), Some(v)) => Some("• "@ + k + " = "@ + v + " [tags: "@ + tags_text(m) + "]"@),
        _ => None,
    }
}

/// The shown memories, skipping those without a key and a value.
pub open spec fn shown_memories(ms: Seq<Json>) -> Seq<Seq<char>>
    decreases ms.len(),
{
    if ms.len() == 0 {
        Seq::empty()
    } else {
        let rest = shown_memories(ms.drop_last());
        match shown_memory(ms.last()) {
            Some(l) => rest.push(l),
            None => rest,
        }
    }
}

/// The query with the relevant memories in front; the query alone when
/// there are none.
pub open spec fn enhanced_query_spec(query: Seq<char>, ms: Seq<Json>) -> Seq<char> {
    if ms.len() == 0 {
        query
    } else {
        "I have the following information from my memory that may be relevant to your query:\n\n```\n"@
            + join_with(shown_memories(ms), "\n"@) + "\n```\n\nBased on this context, I'll now answer your query: "@
            + query
    }
}

/// Each part of a joined text occurs in it.
proof fn lemma_join_contains_part(parts: Seq<Seq<char>>, sep: Seq<char>, i: int)
    requires
        0 <= i < parts.len(),
    ensures
        has_infix(join_with(parts, sep), parts[i]),
    decreases parts.len(),
{
    let j = join_with(parts, sep);
    if parts.len() == 1 {
        assert(j.subrange(0, parts[i].len() as int) =~= parts[i]);
        assert(crate::text::occurs_at(j, parts[i], 0));
    } else if i == parts.len() - 1 {
        let pre = join_with(parts.drop_last(), sep) + sep;
        assert(j =~= pre + parts.last());
        assert(j.subrange(pre.len() as int, (pre.len() + parts[i].len()) as int) =~= parts[i]);
        assert(crate::text::occurs_at(j, parts[i], pre.len() as int));
    } else {
        lemma_join_contains_part(parts.drop_last(), sep, i);
        let inner = join_with(parts.drop_last(), sep);
        let k = choose|k: int| crate::text::occurs_at(inner, parts[i], k);
        assert(j =~= inner + (sep + parts.last()));
        assert(j.subrange(k, k + parts[i].len()) =~= inner.subrange(k, k + parts[i].len()));
        assert(crate::text::occurs_at(j, parts[i], k));
    }
}

/// Every memory with a key and a value has its line among the shown ones.
proof fn lemma_shown_memories_contain(ms: Seq<Json>, i: int)
    requires
        0 <= i < ms.len(),
        shown_memory(ms[i]) is Some,
    ensures
        shown_memories(ms).contains(shown_memory(ms[i])->Some_0),
    decreases ms.len(),
{
    let rest = shown_memories(ms.drop_last());
    if i == ms.len() - 1 {
        assert(shown_memories(ms) == rest.push(shown_memory(ms[i])->Some_0));
        assert(shown_memories(ms)[rest.len() as int] == shown_memory(ms[i])->Some_0);
    } else {
        assert(ms.drop_last()[i] == ms[i]);
        lemma_shown_memories_contain(ms.drop_last(), i);
        let k = choose|k: int| 0 <= k < rest.len() && rest[k] == shown_memory(ms[i])->Some_0;
        assert(shown_memories(ms)[k] == rest[k]);
    }
}

/// The enhanced query always ends with the user's query, unchanged; with no
/// memories it is the query itself; with memories it opens with the
/// introduction and shows, for every memory with a key and a value, the line
/// `• key = value [tags: ...]`.
pub proof fn lemma_enhanced_query_ends_with_query(query: Seq<char>, ms: Seq<Json>)
    ensures
        ({
            let e = enhanced_query_spec(query, ms);
            &&& query.len() <= e.len()
            &&& e.subrange(e.len() - query.len(), e.len() as int) == query
            &&& ms.len() == 0 ==> e == query
            &&& ms.len() > 0 ==> has_prefix(
                e,
                "I have the following information from my memory that may be relevant to your query:\n\n```\n"@,
            )
            &&& forall|i: int|
                0 <= i < ms.len() && get_str(ms[i], "key"@) is Some && get_str(ms[i], "value"@) is Some ==> has_infix(
                    e,
                    "• "@ + get_str(ms[i], "key"@)->Some_0 + " = "@ + get_str(ms[i], "value"@)->Some_0 + " [tags: "@
                        + tags_text(ms[i]) + "]"@,
                )
        }),
{
    let e = enhanced_query_spec(query, ms);
    if ms.len() == 0 {
        assert(e.subrange(e.len() - query.len(), e.len() as int) =~= query);
    } else {
        let head = "I have the following information from my memory that may be relevant to your query:\n\n```\n"@;
        let body = join_with(shown_memories(ms), "\n"@);
        let mid = head + body + "\n```\n\nBased on this context, I'll now answer your query: "@;
        assert(e =~= mid + query);
        assert(e.subrange(e.len() - query.len(), e.len() as int) =~= query);
        assert(e.subrange(0, head.len() as int) =~= head);
        assert forall|i: int|
            0 <= i < ms.len() && get_str(ms[i], "key"@) is Some && get_str(ms[i], "value"@) is Some implies has_infix(
                e,
                "• "@ + get_str(ms[i], "key"@)->Some_0 + " = "@ + get_str(ms[i], "value"@)->Some_0 + " [tags: "@
                    + tags_text(ms[i]) + "]"@,
            ) by {
            let line = shown_memory(ms[i])->Some_0;
            lemma_shown_memories_contain(ms, i);
            let k = choose|k: int| 0 <= k < shown_memories(ms).len() && shown_memories(ms)[k] == line;
            lemma_join_contains_part(shown_memories(ms), "\n"@, k);
            let p = choose|p: int| crate::text::occurs_at(body, line, p);
            assert(e.subrange(head.len() + p, head.len() + p + line.len()) =~= body.subrange(p, p + line.len()));
            assert(crate::text::occurs_at(e, line, head.len() + p));
        }
    }
}

/// Every string among `items` is among their strings.
proof fn lemma_strings_of_contains(items: Seq<Json>, i: int)
    requires
        0 <= i < items.len(),
        items[i] is Str,
    ensures
        strings_of(items).contains(items[i]->Str_0),
    decreases items.len(),
{
    let rest = strings_of(items.drop_last());
    if i == items.len() - 1 {
        assert(strings_of(items)[rest.len() as int] == items[i]->Str_0);
    } else {
        assert(items.drop_last()[i] == items[i]);
        lemma_strings_of_contains(items.drop_last(), i);
        let k = choose|k: int| 0 <= k < rest.len() && rest[k] == items[i]->Str_0;
        if items.last() is Str {
            assert(strings_of(items)[k] == rest[k]);
        } else {
            assert(strings_of(items) == rest);
        }
    }
}

/// A memory's line shows each of its string tags.
pub proof fn lemma_tags_text_shows_tags(m: Json)
    ensures
        forall|items: Seq<Json>, i: int|
            json_get(m, "tags"@) == Some(Json::Array(items)) && 0 <= i < items.len() && #[trigger] items[i] is Str
                ==> has_infix(tags_text(m), items[i]->Str_0),
{
    assert forall|items: Seq<Json>, i: int|
        json_get(m, "tags"@) == Some(Json::Array(items)) && 0 <= i < items.len() && #[trigger] items[i] is Str implies has_infix(
        tags_text(m),
        items[i]->Str_0,
    ) by {
        lemma_strings_of_contains(items, i);
        let k = choose|k: int| 0 <= k < strings_of(items).len() && strings_of(items)[k] == items[i]->Str_0;
        lemma_join_contains_part(strings_of(items), ", "@, k);
    }
}

/// The query with the relevant memories in front (see [`enhanced_query_spec`]).
pub fn enhance_query(query: &str, memories: &Vec<JsonValue>) -> (r: String)
    ensures
        r@ == enhanced_query_spec(query@, crate::json::items_view(memories@)),
{
    if memories.len() == 0 {
        return String::from_str(query);
    }
    let ghost ms = crate::json::items_view(memories@);
    let mut lines: Vec<String> = Vec::new();
    let mut i: usize = 0;
    while i < memories.len()
        invariant
            i <= memories@.len(),
            ms == crate::json::items_view(memories@),
            crate::text::strings_view(lines@) == shown_memories(ms.take(i as int)),
        decreases memories@.len() - i,
    {
        assert(ms.take(i as int + 1).drop_last() =~= ms.take(i as int));
        let m = &memories[i];
        let key = crate::mcp::servers::protocol::arg_str(m, "key");
        let value = crate::mcp::servers::protocol::arg_str(m, "value");
        match (key, value) {
            (Some(k), Some(v)) => {
                let tags = tags_of(m);
                let mut line = cat3("• ", k.as_str(), " = ");
                line.append(v.as_str());
                line.append(" [tags: ");
                line.append(tags.as_str());
                line.append("]");
                let ghost before = lines@;
                lines.push(line);
                assert(crate::text::strings_view(lines@) =~= crate::text::strings_view(before).push(line@));
            },
            _ => {},
        }
        i = i + 1;
    }
    assert(ms.take(memories@.len() as int) =~= ms);
    let listed = join_strings(&lines, "\n");
    let mut out = String::from_str("I have the following information from my memory that may be relevant to your query:\n\n```\n");
    out.append(listed.as_str());
    out.append("\n```\n\nBased on this context, I'll now answer your query: ");
    out.append(query);
    out
}

/// The counts a deduplication reports: `removed_count` and
/// `remaining_count`, each 0 when it is missing or not a `u64`.
pub fn dedup_counts(response: &JsonValue) -> (r: (u64, u64))
    ensures
        r.0 == match json_get(response@, "removed_count"@) {
            Some(v) => match json_as_u64(v) {
                Some(n) => n,
                None => 0u64,
            },
            None => 0u64,
        },
        r.1 == match json_get(response@, "remaining_count"@) {
            Some(v) => match json_as_u64(v) {
                Some(n) => n,
                None => 0u64,
            },
            None => 0u64,
        },
{
    let removed = match response.get("removed_count") {
        Some(v) => match v.as_u64() {
            Some(n) => n,
            None => 0,
        },
        None => 0,
    };
    let remaining = match response.get("remaining_count") {
        Some(v) => match v.as_u64() {
            Some(n) => n,
            None => 0,
        },
        None => 0,
    };
    (removed, remaining)
}

} // verus!
