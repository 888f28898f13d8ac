//! The memory record that the memory servers store: a key, a value, the
//! second at which it was written and a list of tags.

use vstd::prelude::*;
use crate::json::{json_str, json_u64, lemma_array_view, lemma_object_view, Json, JsonValue};
use crate::text::{copy_strings, dec, str_eq, strings_view};

verus! {

/// A stored memory.
pub struct Memory {
    pub key: String,
    pub value: String,
    pub timestamp: u64,
    pub tags: Vec<String>,
}

/// The mathematical form of a memory.
pub struct MemoryView {
    pub key: Seq<char>,
    pub value: Seq<char>,
    pub timestamp: u64,
    pub tags: Seq<Seq<char>>,
}

impl View for Memory {
    type V = MemoryView;

    open spec fn view(&self) -> MemoryView {
        MemoryView {
            key: self.key@,
            value: self.value@,
            timestamp: self.timestamp,
            tags: strings_view(self.tags@),
        }
    }
}

/// The mathematical form of a list of memories.
pub open spec fn memories_view(v: Seq<Memory>) -> Seq<MemoryView> {
    v.map_values(|m: Memory| m@)
}

impl Memory {
    /// A copy of the memory.
    pub fn copy(&self) -> (r: Memory)
        ensures
            r@ == self@,
    {
        Memory {
            key: self.key.clone(),
            value: self.value.clone(),
            timestamp: self.timestamp,
            tags: copy_strings(&self.tags),
        }
    }

    /// The memory as the JSON object that the servers send.
    pub fn to_json(&self) -> (r: JsonValue)
        ensures
            r@ == memory_json(self@),
    {
        let mut tags: Vec<JsonValue> = Vec::new();
        let mut i: usize = 0;
        while i < self.tags.len()
            invariant
                i <= self.tags@.len(),
                tags@.len() == i,
                forall|k: int| 0 <= k < i ==> (#[trigger] tags@[k])@ == Json::Str(self.tags@[k]@),
            decreases self.tags@.len() - i,
        {
            tags.push(json_str(self.tags[i].as_str()));
            i = i + 1;
        }
        proof {
            lemma_array_view(tags);
            assert(crate::json::items_view(tags@) =~= strings_json(strings_view(self.tags@)));
        }
        let members = vec![
            (String::from_str("key"), json_str(self.key.as_str())),
            (String::from_str("value"), json_str(self.value.as_str())),
            (String::from_str("timestamp"), json_u64(self.timestamp)),
            (String::from_str("tags"), JsonValue::Array(tags)),
        ];
        proof {
            lemma_object_view(members);
            assert(crate::json::members_view(members@) =~= memory_json_members(self@));
        }
        JsonValue::Object(members)
    }
}

/// JSON strings for a list of texts.
pub open spec fn strings_json(v: Seq<Seq<char>>) -> Seq<Json> {
    v.map_values(|s: Seq<char>| Json::Str(s))
}

/// The members of a memory's JSON object.
pub open spec fn memory_json_members(m: MemoryView) -> Seq<(Seq<char>, Json)> {
    seq![
        ("key"@, Json::Str(m.key)),
        ("value"@, Json::Str(m.value)),
        ("timestamp"@, Json::Number(dec(m.timestamp as nat))),
        ("tags"@, Json::Array(strings_json(m.tags))),
    ]
}

/// A memory as a JSON object: `key`, `value`, `timestamp` and `tags`.
pub open spec fn memory_json(m: MemoryView) -> Json {
    Json::Object(memory_json_members(m))
}

/// A list of memories as a JSON array.
pub open spec fn memories_json(v: Seq<MemoryView>) -> Json {
    Json::Array(v.map_values(|m: MemoryView| memory_json(m)))
}

/// A list of memories as a JSON array.
pub fn memories_to_json(v: &Vec<Memory>) -> (r: JsonValue)
    ensures
        r@ == memories_json(memories_view(v@)),
{
    let mut items: Vec<JsonValue> = Vec::new();
    let mut i: usize = 0;
    while i < v.len()
        invariant
            i <= v@.len(),
            items@.len() == i,
            forall|k: int| 0 <= k < i ==> (#[trigger] items@[k])@ == memory_json(v@[k]@),
        decreases v@.len() - i,
    {
        items.push(v[i].to_json());
        i = i + 1;
    }
    proof {
        lemma_array_view(items);
        assert(crate::json::items_view(items@) =~= memories_view(v@).map_values(
            |m: MemoryView| memory_json(m),
        ));
    }
    JsonValue::Array(items)
}

/// A copy of a list of memories.
pub fn copy_memories(v: &Vec<Memory>) -> (r: Vec<Memory>)
    ensures
        memories_view(r@) == memories_view(v@),
{
    let mut r: Vec<Memory> = Vec::new();
    let mut i: usize = 0;
    while i < v.len()
        invariant
            i <= v@.len(),
            r@.len() == i,
            forall|k: int| 0 <= k < i ==> (#[trigger] r@[k])@ == v@[k]@,
        decreases v@.len() - i,
    {
        let c = v[i].copy();
        r.push(c);
        i = i + 1;
    }
    assert(memories_view(r@) =~= memories_view(v@));
    r
}

/// Whether a memory has the key `k`.
pub open spec fn has_key(k: Seq<char>) -> spec_fn(MemoryView) -> bool {
    |m: MemoryView| m.key == k
}

/// Whether a memory has a key other than `k`.
pub open spec fn lacks_key(k: Seq<char>) -> spec_fn(MemoryView) -> bool {
    |m: MemoryView| m.key != k
}

/// Whether a memory carries the tag `t`.
pub open spec fn has_tag(t: Seq<char>) -> spec_fn(MemoryView) -> bool {
    |m: MemoryView| m.tags.contains(t)
}

/// Whether the list of strings holds `t`.
pub fn contains_string(v: &Vec<String>, t: &str) -> (b: bool)
    ensures
        b == strings_view(v@).contains(t@),
{
    let mut i: usize = 0;
    while i < v.len()
        invariant
            i <= v@.len(),
            forall|k: int| 0 <= k < i ==> v@[k]@ != t@,
        decreases v@.len() - i,
    {
        if str_eq(v[i].as_str(), t) {
            assert(strings_view(v@)[i as int] == t@);
            return true;
        }
        i = i + 1;
    }
    assert forall|k: int| 0 <= k < strings_view(v@).len() implies strings_view(v@)[k] != t@ by {
        assert(strings_view(v@)[k] == v@[k]@);
    }
    false
}

/// The memories of `v` with the key `key`, in order.
pub fn memories_with_key(v: &Vec<Memory>, key: &str) -> (r: Vec<Memory>)
    ensures
        memories_view(r@) == memories_view(v@).filter(has_key(key@)),
{
    let mut r: Vec<Memory> = Vec::new();
    let mut i: usize = 0;
    assert(memories_view(v@.take(0)) =~= Seq::<MemoryView>::empty());
    proof {
        reveal(Seq::filter);
    }
    while i < v.len()
        invariant
            i <= v@.len(),
            memories_view(r@) == memories_view(v@.take(i as int)).filter(has_key(key@)),
        decreases v@.len() - i,
    {
        let ghost before = memories_view(v@.take(i as int));
        assert(memories_view(v@.take(i as int + 1)) =~= before.push(v@[i as int]@));
        proof {
            before.lemma_filter_push(v@[i as int]@, has_key(key@));
        }
        if str_eq(v[i].key.as_str(), key) {
            let c = v[i].copy();
            let ghost old_r = r@;
            r.push(c);
            assert(memories_view(r@) =~= memories_view(old_r).push(c@));
        }
        i = i + 1;
    }
    assert(v@.take(v@.len() as int) =~= v@);
    r
}

/// The memories of `v` that carry the tag `tag`, in order.
pub fn memories_with_tag(v: &Vec<Memory>, tag: &str) -> (r: Vec<Memory>)
    ensures
        memories_view(r@) == memories_view(v@).filter(has_tag(tag@)),
{
    let mut r: Vec<Memory> = Vec::new();
    let mut i: usize = 0;
    assert(memories_view(v@.take(0)) =~= Seq::<MemoryView>::empty());
    proof {
        reveal(Seq::filter);
    }
    while i < v.len()
        invariant
            i <= v@.len(),
            memories_view(r@) == memories_view(v@.take(i as int)).filter(has_tag(tag@)),
        decreases v@.len() - i,
    {
        let ghost before = memories_view(v@.take(i as int));
        assert(memories_view(v@.take(i as int + 1)) =~= before.push(v@[i as int]@));
        proof {
            before.lemma_filter_push(v@[i as int]@, has_tag(tag@));
        }
        if contains_string(&v[i].tags, tag) {
            let c = v[i].copy();
            let ghost old_r = r@;
            r.push(c);
            assert(memories_view(r@) =~= memories_view(old_r).push(c@));
        }
        i = i + 1;
    }
    assert(v@.take(v@.len() as int) =~= v@);
    r
}

/// Removes the memories with the key `key` and says how many went.
pub fn remove_key(v: &mut Vec<Memory>, key: &str) -> (n: usize)
    ensures
        memories_view(final(v)@) == memories_view(old(v)@).filter(lacks_key(key@)),
        n == old(v)@.len() - final(v)@.len(),
{
    let mut r: Vec<Memory> = Vec::new();
    let mut i: usize = 0;
    assert(memories_view(v@.take(0)) =~= Seq::<MemoryView>::empty());
    proof {
        reveal(Seq::filter);
    }
    while i < v.len()
        invariant
            i <= v@.len(),
            r@.len() <= i,
            memories_view(r@) == memories_view(v@.take(i as int)).filter(lacks_key(key@)),
        decreases v@.len() - i,
    {
        let ghost before = memories_view(v@.take(i as int));
        assert(memories_view(v@.take(i as int + 1)) =~= before.push(v@[i as int]@));
        proof {
            before.lemma_filter_push(v@[i as int]@, lacks_key(key@));
        }
        if !str_eq(v[i].key.as_str(), key) {
            let c = v[i].copy();
            let ghost old_r = r@;
            r.push(c);
            assert(memories_view(r@) =~= memories_view(old_r).push(c@));
        }
        i = i + 1;
    }
    assert(v@.take(v@.len() as int) =~= v@);
    let n = v.len() - r.len();
    *v = r;
    n
}

} // verus!
