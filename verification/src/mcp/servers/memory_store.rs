//! The store of the memory-store server: one memory per key is the aim, so
//! writing an existing key updates its newest entry, an identical write is
//! ignored, and `deduplicate` keeps only the newest memory of each key.

use vstd::prelude::*;
use crate::clock::unix_timestamp;
use crate::mcp::servers::memory_records::{
    contains_string, has_key, has_tag, lacks_key, memories_view, memories_with_key,
    memories_with_tag, remove_key, copy_memories, Memory, MemoryView,
};
use crate::text::{cat2, copy_strings, dec, is_blank, str_eq, strings_view, trim, usize_to_string};
use crate::json::{get_str, json_object, json_str, member, members_view, Json, JsonValue};
use crate::mcp::rpc::{Request, Response};
use crate::mcp::servers::memory_records::{memories_json, memories_to_json};
use crate::mcp::servers::protocol::{
    arg_str, arg_strings, arg_strings_spec, error_response, initialize_result, is_result, param,
    members_schema, params_members, plain_param, replies, request_id, result_response, tool, tool_names, tool_view,
    tool_views, ParamKind, ParamSpec, Reply,
    ResourceSpec, ToolSpec,
};

verus! {

/// The memories of the store.
pub struct MemoryStore {
    pub memories: Vec<Memory>,
}

impl View for MemoryStore {
    type V = Seq<MemoryView>;

    open spec fn view(&self) -> Seq<MemoryView> {
        memories_view(self.memories@)
    }
}

/// `tags` added to `old`, each one that is not there yet, in order.
pub open spec fn merge_tags(old: Seq<Seq<char>>, tags: Seq<Seq<char>>) -> Seq<Seq<char>>
    decreases tags.len(),
{
    if tags.len() == 0 {
        old
    } else {
        let m = merge_tags(old, tags.drop_last());
        if m.contains(tags.last()) {
            m
        } else {
            m.push(tags.last())
        }
    }
}

/// Entry `i` is the first of the entries with key `key` that carry the
/// largest timestamp, and that timestamp is positive.
pub open spec fn is_latest(ms: Seq<MemoryView>, key: Seq<char>, i: int) -> bool {
    &&& 0 <= i < ms.len()
    &&& ms[i].key == key
    &&& ms[i].timestamp > 0
    &&& forall|j: int| 0 <= j < ms.len() && #[trigger] ms[j].key == key ==> ms[j].timestamp <= ms[i].timestamp
    &&& forall|j: int| 0 <= j < i && #[trigger] ms[j].key == key ==> ms[j].timestamp < ms[i].timestamp
}

/// Some entry holds exactly this key and value.
pub open spec fn has_entry(ms: Seq<MemoryView>, key: Seq<char>, value: Seq<char>) -> bool {
    exists|i: int| 0 <= i < ms.len() && (#[trigger] ms[i]).key == key && ms[i].value == value
}

/// What `add_memory` makes of the store `ms` at the second `now`: the error
/// for a blank key or value; the store unchanged when the same key and value
/// are already there; the newest entry of the key updated (value, time,
/// merged tags) when the key has one with a positive time; otherwise the
/// store with the new memory appended.
pub open spec fn add_result(
    ms: Seq<MemoryView>,
    key: Seq<char>,
    value: Seq<char>,
    tags: Seq<Seq<char>>,
    now: u64,
) -> Result<Seq<MemoryView>, Seq<char>> {
    if trim(key).len() == 0 {
        Err("Memory key cannot be empty"@)
    } else if trim(value).len() == 0 {
        Err("Memory value cannot be empty"@)
    } else if has_entry(ms, key, value) {
        Ok(ms)
    } else if exists|i: int| is_latest(ms, key, i) {
        let i = choose|i: int| is_latest(ms, key, i);
        Ok(
            ms.update(
                i,
                MemoryView {
                    key: ms[i].key,
                    value: value,
                    timestamp: now,
                    tags: merge_tags(ms[i].tags, tags),
                },
            ),
        )
    } else {
        Ok(ms.push(MemoryView { key: key, value: value, timestamp: now, tags: tags }))
    }
}

/// Entry `a` comes before entry `b` once the store is sorted newest first,
/// equal timestamps keeping their order.
pub open spec fn newer(ms: Seq<MemoryView>, a: int, b: int) -> bool {
    ms[a].timestamp > ms[b].timestamp || (ms[a].timestamp == ms[b].timestamp && a < b)
}

/// Entry `i` comes before every other entry with its key in that order.
pub open spec fn is_newest_of_key(ms: Seq<MemoryView>, i: int) -> bool {
    &&& 0 <= i < ms.len()
    &&& forall|j: int|
        0 <= j < ms.len() && j != i && #[trigger] ms[j].key == ms[i].key ==> newer(ms, i, j)
}

/// `idx` lists the newest entry of every key, each once, newest first.
pub open spec fn dedup_order(ms: Seq<MemoryView>, idx: Seq<int>) -> bool {
    &&& forall|k: int| 0 <= k < idx.len() ==> is_newest_of_key(ms, #[trigger] idx[k])
    &&& forall|i: int| is_newest_of_key(ms, i) ==> #[trigger] idx.contains(i)
    &&& forall|k1: int, k2: int|
        0 <= k1 < k2 < idx.len() ==> newer(ms, #[trigger] idx[k1], #[trigger] idx[k2])
}

/// `r` is `ms` sorted newest first (equal timestamps in their order) with
/// only the first memory of each key kept.
pub open spec fn deduplicated(ms: Seq<MemoryView>, r: Seq<MemoryView>) -> bool {
    exists|idx: Seq<int>|
        dedup_order(ms, idx) && r.len() == idx.len() && forall|k: int|
            0 <= k < r.len() ==> #[trigger] r[k] == ms[idx[k]]
}

/// The key of no two entries is the same.
pub open spec fn distinct_keys(ms: Seq<MemoryView>) -> bool {
    forall|i: int, j: int| 0 <= i < j < ms.len() ==> (#[trigger] ms[i]).key != (#[trigger] ms[j]).key
}

impl MemoryStore {
    /// An empty store.
    pub fn new() -> (s: Self)
        ensures
            s@ == Seq::<MemoryView>::empty(),
    {
        MemoryStore { memories: Vec::new() }
    }

    /// Adds a memory written at the second `now` (see [`add_result`]).
    pub fn add_memory_at(&mut self, key: &str, value: &str, tags: Vec<String>, now: u64) -> (r: Result<(), String>)
        ensures
            match add_result(old(self)@, key@, value@, strings_view(tags@), now) {
                Ok(ms) => r is Ok && final(self)@ == ms,
                Err(e) => r matches Err(m) && m@ == e && final(self)@ == old(self)@,
            },
    {
        if is_blank(key) {
            return Err(String::from_str("Memory key cannot be empty"));
        }
        if is_blank(value) {
            return Err(String::from_str("Memory value cannot be empty"));
        }
        let ghost ms = self@;
        let n = self.memories.len();
        let mut i: usize = 0;
        while i < n
            invariant
                n == self.memories@.len(),
                ms == self@,
                ms == old(self)@,
                trim(key@).len() != 0,
                trim(value@).len() != 0,
                i <= n,
                forall|j: int| 0 <= j < i ==> !((#[trigger] ms[j]).key == key@ && ms[j].value == value@),
            decreases n - i,
        {
            if str_eq(self.memories[i].key.as_str(), key) && str_eq(self.memories[i].value.as_str(), value) {
                assert(ms[i as int].key == key@ && ms[i as int].value == value@);
                assert(has_entry(ms, key@, value@));
                return Ok(());
            }
            i = i + 1;
        }
        assert(!has_entry(ms, key@, value@));
        let mut best: Option<usize> = None;
        let mut best_ts: u64 = 0;
        let mut j: usize = 0;
        while j < n
            invariant
                n == self.memories@.len(),
                ms == self@,
                j <= n,
                best is None ==> best_ts == 0,
                best matches Some(b) ==> b < j && ms[b as int].key == key@ && ms[b as int].timestamp == best_ts && best_ts > 0
                    && forall|k: int| 0 <= k < b && #[trigger] ms[k].key == key@ ==> ms[k].timestamp < best_ts,
                forall|k: int| 0 <= k < j && #[trigger] ms[k].key == key@ ==> ms[k].timestamp <= best_ts,
            decreases n - j,
        {
            if str_eq(self.memories[j].key.as_str(), key) && self.memories[j].timestamp > best_ts {
                best = Some(j);
                best_ts = self.memories[j].timestamp;
            }
            j = j + 1;
        }
        match best {
            Some(b) => {
                assert(is_latest(ms, key@, b as int));
                assert forall|k: int| is_latest(ms, key@, k) implies k == b as int by {
                    if k < b {
                        assert(ms[k].timestamp < ms[b as int].timestamp);
                    } else if k > b {
                        assert(ms[b as int].timestamp < ms[k].timestamp);
                    }
                }
                let old_tags = &self.memories[b].tags;
                let mut merged = copy_strings(old_tags);
                let mut t: usize = 0;
                while t < tags.len()
                    invariant
                        t <= tags@.len(),
                        strings_view(merged@) == merge_tags(ms[b as int].tags, strings_view(tags@).take(t as int)),
                    decreases tags@.len() - t,
                {
                    let ghost pre = strings_view(tags@).take(t as int + 1);
                    assert(pre.drop_last() =~= strings_view(tags@).take(t as int));
                    assert(pre.last() == tags@[t as int]@);
                    if !contains_string(&merged, tags[t].as_str()) {
                        let ghost old_m = merged@;
                        merged.push(tags[t].clone());
                        assert(strings_view(merged@) =~= strings_view(old_m).push(tags@[t as int]@));
                    }
                    t = t + 1;
                }
                assert(strings_view(tags@).take(tags@.len() as int) =~= strings_view(tags@));
                let updated = Memory {
                    key: self.memories[b].key.clone(),
                    value: String::from_str(value),
                    timestamp: now,
                    tags: merged,
                };
                self.memories.set(b, updated);
                assert(self@ =~= ms.update(
                    b as int,
                    MemoryView {
                        key: ms[b as int].key,
                        value: value@,
                        timestamp: now,
                        tags: merge_tags(ms[b as int].tags, strings_view(tags@)),
                    },
                ));
                Ok(())
            },
            None => {
                assert forall|k: int| !is_latest(ms, key@, k) by {
                    if 0 <= k < n && ms[k].key == key@ {
                        assert(ms[k].timestamp <= 0);
                    }
                }
                let m = Memory {
                    key: String::from_str(key),
                    value: String::from_str(value),
                    timestamp: now,
                    tags: tags,
                };
                self.memories.push(m);
                assert(self@ =~= ms.push(MemoryView { key: key@, value: value@, timestamp: now, tags: strings_view(tags@) }));
                Ok(())
            },
        }
    }

    /// Adds a memory written now (see [`add_result`]); the time is the clock's.
    pub fn add_memory(&mut self, key: &str, value: &str, tags: Vec<String>) -> (r: Result<(), String>)
        ensures
            exists|now: u64|
                match #[trigger] add_result(old(self)@, key@, value@, strings_view(tags@), now) {
                    Ok(ms) => r is Ok && final(self)@ == ms,
                    Err(e) => r matches Err(m) && m@ == e && final(self)@ == old(self)@,
                },
    {
        let now = unix_timestamp();
        self.add_memory_at(key, value, tags, now)
    }

    /// The memories with the key `key`, in store order.
    pub fn get_by_key(&self, key: &str) -> (r: Vec<Memory>)
        ensures
            memories_view(r@) == self@.filter(has_key(key@)),
    {
        memories_with_key(&self.memories, key)
    }

    /// The memories that carry the tag `tag`; none for a blank tag.
    pub fn get_by_tag(&self, tag: &str) -> (r: Vec<Memory>)
        ensures
            memories_view(r@) == if trim(tag@).len() == 0 {
                Seq::<MemoryView>::empty()
            } else {
                self@.filter(has_tag(tag@))
            },
    {
        if is_blank(tag) {
            return Vec::new();
        }
        memories_with_tag(&self.memories, tag)
    }

    /// All memories, in store order.
    pub fn get_all_memories(&self) -> (r: Vec<Memory>)
        ensures
            memories_view(r@) == self@,
    {
        copy_memories(&self.memories)
    }

    /// Deletes the memories with the key `key` and says how many there were.
    pub fn delete_by_key(&mut self, key: &str) -> (n: usize)
        ensures
            final(self)@ == old(self)@.filter(lacks_key(key@)),
            n == old(self)@.len() - final(self)@.len(),
    {
        remove_key(&mut self.memories, key)
    }

    /// Whether entry `a` comes before entry `b` newest first.
    fn is_newer(&self, a: usize, b: usize) -> (r: bool)
        requires
            a < self.memories@.len(),
            b < self.memories@.len(),
        ensures
            r == newer(self@, a as int, b as int),
    {
        let ta = self.memories[a].timestamp;
        let tb = self.memories[b].timestamp;
        ta > tb || (ta == tb && a < b)
    }

    /// Whether entry `i` is the newest of its key.
    fn is_newest(&self, i: usize) -> (r: bool)
        requires
            i < self.memories@.len(),
        ensures
            r == is_newest_of_key(self@, i as int),
    {
        let n = self.memories.len();
        let mut j: usize = 0;
        while j < n
            invariant
                n == self.memories@.len(),
                i < n,
                j <= n,
                forall|k: int|
                    0 <= k < j && k != i && #[trigger] self@[k].key == self@[i as int].key ==> newer(
                        self@,
                        i as int,
                        k,
                    ),
            decreases n - j,
        {
            if j != i && str_eq(self.memories[j].key.as_str(), self.memories[i].key.as_str())
                && !self.is_newer(i, j) {
                assert(self@[j as int].key == self@[i as int].key);
                return false;
            }
            j = j + 1;
        }
        true
    }

    /// Keeps only the newest memory of each key, newest first, and says how
    /// many memories went.
    pub fn deduplicate(&mut self) -> (removed: usize)
        ensures
            deduplicated(old(self)@, final(self)@),
            removed == old(self)@.len() - final(self)@.len(),
    {
        let ghost ms = self@;
        let n = self.memories.len();
        let mut order: Vec<usize> = Vec::new();
        let mut i: usize = 0;
        while i < n
            invariant
                n == self.memories@.len(),
                ms == self@,
                i <= n,
                order@.len() <= i,
                forall|k: int| 0 <= k < order@.len() ==> #[trigger] order@[k] < i,
                forall|k: int| 0 <= k < order@.len() ==> is_newest_of_key(ms, #[trigger] order@[k] as int),
                forall|j: int| 0 <= j < i && is_newest_of_key(ms, j) ==> exists|k: int| 0 <= k < order@.len() && #[trigger] order@[k] == j,
                forall|k1: int, k2: int|
                    0 <= k1 < k2 < order@.len() ==> newer(ms, #[trigger] order@[k1] as int, #[trigger] order@[k2] as int),
            decreases n - i,
        {
            if self.is_newest(i) {
                let mut p: usize = 0;
                while p < order.len() && !self.is_newer(i, order[p])
                    invariant
                        n == self.memories@.len(),
                        ms == self@,
                        i < n,
                        p <= order@.len(),
                        forall|k: int| 0 <= k < order@.len() ==> #[trigger] order@[k] < i,
                        forall|k: int| 0 <= k < p ==> newer(ms, #[trigger] order@[k] as int, i as int),
                    decreases order@.len() - p,
                {
                    assert(order@[p as int] < i);
                    p = p + 1;
                }
                let ghost before = order@;
                order.insert(p, i);
                assert(order@ =~= before.take(p as int).push(i).add(before.skip(p as int)));
                assert forall|k1: int, k2: int|
                    0 <= k1 < k2 < order@.len() implies newer(ms, #[trigger] order@[k1] as int, #[trigger] order@[k2] as int) by {
                    if k1 < p && k2 < p {
                        assert(order@[k1] == before[k1] && order@[k2] == before[k2]);
                    } else if k1 < p && k2 == p {
                    } else if k1 < p {
                        assert(order@[k1] == before[k1] && order@[k2] == before[k2 - 1]);
                        assert(newer(ms, before[k1] as int, i as int));
                    } else if k1 == p {
                        assert(order@[k2] == before[k2 - 1]);
                        assert(newer(ms, i as int, before[p as int] as int));
                        if k2 - 1 > p {
                            assert(newer(ms, before[p as int] as int, before[k2 - 1] as int));
                        }
                    } else {
                        assert(order@[k1] == before[k1 - 1] && order@[k2] == before[k2 - 1]);
                    }
                }
                assert forall|j: int| 0 <= j < i + 1 && is_newest_of_key(ms, j) implies exists|k: int|
                    0 <= k < order@.len() && #[trigger] order@[k] == j by {
                    if j == i {
                        assert(order@[p as int] == i);
                    } else {
                        let k = choose|k: int| 0 <= k < before.len() && before[k] == j;
                        if k < p {
                            assert(order@[k] == j);
                        } else {
                            assert(order@[k + 1] == j);
                        }
                    }
                }
                assert forall|k: int| 0 <= k < order@.len() implies is_newest_of_key(ms, #[trigger] order@[k] as int) by {
                    if k < p {
                        assert(order@[k] == before[k]);
                    } else if k > p {
                        assert(order@[k] == before[k - 1]);
                    }
                }
                assert forall|k: int| 0 <= k < order@.len() implies #[trigger] order@[k] < i + 1 by {
                    if k < p {
                        assert(order@[k] == before[k]);
                    } else if k > p {
                        assert(order@[k] == before[k - 1]);
                    }
                }
            }
            i = i + 1;
        }
        let mut kept: Vec<Memory> = Vec::new();
        let mut k: usize = 0;
        while k < order.len()
            invariant
                n == self.memories@.len(),
                ms == self@,
                k <= order@.len(),
                order@.len() <= n,
                forall|q: int| 0 <= q < order@.len() ==> #[trigger] order@[q] < n,
                kept@.len() == k,
                forall|q: int| 0 <= q < k ==> (#[trigger] kept@[q])@ == ms[order@[q] as int],
            decreases order@.len() - k,
        {
            let c = self.memories[order[k]].copy();
            kept.push(c);
            k = k + 1;
        }
        let removed = n - kept.len();
        self.memories = kept;
        proof {
            let idx = order@.map_values(|x: usize| x as int);
            assert forall|j: int| is_newest_of_key(ms, j) implies #[trigger] idx.contains(j) by {
                let q = choose|q: int| 0 <= q < order@.len() && #[trigger] order@[q] == j;
                assert(idx[q] == j);
            }
            assert(dedup_order(ms, idx));
            assert(forall|q: int| 0 <= q < self@.len() ==> #[trigger] self@[q] == ms[idx[q]]);
        }
        removed
    }
}

/// After a successful `add_memory`, reading the key gives back a memory
/// with the value that was written.
pub proof fn lemma_added_value_is_found(
    ms: Seq<MemoryView>,
    key: Seq<char>,
    value: Seq<char>,
    tags: Seq<Seq<char>>,
    now: u64,
)
    requires
        add_result(ms, key, value, tags, now) is Ok,
    ensures
        exists|m: MemoryView|
            (#[trigger] add_result(ms, key, value, tags, now)->Ok_0.filter(has_key(key)).contains(m))
                && m.value == value,
{
    let r = add_result(ms, key, value, tags, now)->Ok_0;
    let i: int = if has_entry(ms, key, value) {
        choose|i: int| 0 <= i < ms.len() && (#[trigger] ms[i]).key == key && ms[i].value == value
    } else if exists|i: int| is_latest(ms, key, i) {
        choose|i: int| is_latest(ms, key, i)
    } else {
        ms.len() as int
    };
    assert(0 <= i < r.len() && r[i].key == key && r[i].value == value);
    r.lemma_filter_contains(has_key(key), i);
}

/// After `delete_by_key(k)` no memory has the key `k`.
pub proof fn lemma_deleted_key_is_gone(ms: Seq<MemoryView>, k: Seq<char>)
    ensures
        ms.filter(lacks_key(k)).filter(has_key(k)).len() == 0,
{
    let s = ms.filter(lacks_key(k));
    let f = s.filter(has_key(k));
    if f.len() > 0 {
        s.lemma_filter_pred(has_key(k), 0);
        assert(f.contains(f[0]));
        s.lemma_filter_contains_rev(has_key(k), f[0]);
        let j = choose|j: int| 0 <= j < s.len() && s[j] == f[0];
        ms.lemma_filter_pred(lacks_key(k), j);
    }
}

/// `delete_by_key(k)` leaves the memories of every other key as they were.
pub proof fn lemma_delete_keeps_other_keys(ms: Seq<MemoryView>, k: Seq<char>, k2: Seq<char>)
    requires
        k != k2,
    ensures
        ms.filter(lacks_key(k)).filter(has_key(k2)) == ms.filter(has_key(k2)),
    decreases ms.len(),
{
    if ms.len() > 0 {
        let t = ms.drop_last();
        let x = ms.last();
        lemma_delete_keeps_other_keys(t, k, k2);
        assert(ms =~= t.push(x));
        t.lemma_filter_push(x, lacks_key(k));
        t.lemma_filter_push(x, has_key(k2));
        t.filter(lacks_key(k)).lemma_filter_push(x, has_key(k2));
    } else {
        assert(ms.filter(lacks_key(k)) =~= ms);
        assert(ms.filter(has_key(k2)) =~= ms);
    }
}

/// After `deduplicate` no two memories share a key.
pub proof fn lemma_deduplicated_keys_distinct(ms: Seq<MemoryView>, r: Seq<MemoryView>)
    requires
        deduplicated(ms, r),
    ensures
        distinct_keys(r),
{
    let idx = choose|idx: Seq<int>|
        dedup_order(ms, idx) && r.len() == idx.len() && forall|k: int|
            0 <= k < r.len() ==> #[trigger] r[k] == ms[idx[k]];
    assert forall|a: int, b: int| 0 <= a < b < r.len() implies (#[trigger] r[a]).key != (#[trigger] r[b]).key by {
        assert(is_newest_of_key(ms, idx[a]));
        assert(is_newest_of_key(ms, idx[b]));
        assert(newer(ms, idx[a], idx[b]));
        if ms[idx[a]].key == ms[idx[b]].key {
            assert(ms[idx[a]].key == ms[idx[b]].key);
            assert(newer(ms, idx[b], idx[a]));
        }
    }
}

/// Among the first `n` entries, entry `j` comes before every other entry
/// with the key `key`.
pub open spec fn newest_in_prefix(ms: Seq<MemoryView>, key: Seq<char>, n: int, j: int) -> bool {
    &&& 0 <= j < n
    &&& ms[j].key == key
    &&& forall|q: int| 0 <= q < n && q != j && #[trigger] ms[q].key == key ==> newer(ms, j, q)
}

proof fn lemma_newest_in_prefix_exists(ms: Seq<MemoryView>, key: Seq<char>, n: int, i: int)
    requires
        0 <= i < n <= ms.len(),
        ms[i].key == key,
    ensures
        exists|j: int| newest_in_prefix(ms, key, n, j),
    decreases n,
{
    if n - 1 == i && !(exists|q: int| 0 <= q < i && ms[q].key == key) {
        assert(newest_in_prefix(ms, key, n, i));
    } else {
        let i2: int = if n - 1 == i {
            choose|q: int| 0 <= q < i && ms[q].key == key
        } else {
            i
        };
        let m = n - 1;
        lemma_newest_in_prefix_exists(ms, key, m, i2);
        let j = choose|j: int| #[trigger] newest_in_prefix(ms, key, m, j);
        if ms[n - 1].key != key || newer(ms, j, n - 1) {
            assert(newest_in_prefix(ms, key, n, j));
        } else {
            assert(newest_in_prefix(ms, key, n, n - 1));
        }
    }
}

/// `deduplicate` loses no key: every key of the store before is the key of
/// a memory after, and that memory is the newest one the key had.
pub proof fn lemma_deduplicate_keeps_newest(ms: Seq<MemoryView>, r: Seq<MemoryView>, i: int)
    requires
        deduplicated(ms, r),
        0 <= i < ms.len(),
    ensures
        exists|k: int| 0 <= k < r.len() && (#[trigger] r[k]).key == ms[i].key && forall|q: int|
            0 <= q < ms.len() && #[trigger] ms[q].key == ms[i].key ==> r[k].timestamp >= ms[q].timestamp,
{
    let idx = choose|idx: Seq<int>|
        dedup_order(ms, idx) && r.len() == idx.len() && forall|k: int|
            0 <= k < r.len() ==> #[trigger] r[k] == ms[idx[k]];
    lemma_newest_in_prefix_exists(ms, ms[i].key, ms.len() as int, i);
    let len = ms.len() as int;
    let j = choose|j: int| #[trigger] newest_in_prefix(ms, ms[i].key, len, j);
    assert(is_newest_of_key(ms, j));
    assert(idx.contains(j));
    let k = choose|k: int| 0 <= k < idx.len() && idx[k] == j;
    assert(r[k] == ms[j]);
    assert forall|q: int| 0 <= q < ms.len() && #[trigger] ms[q].key == ms[i].key implies r[k].timestamp >= ms[q].timestamp by {
        if q != j {
            assert(newer(ms, j, q));
        }
    }
}

/// No two entries hold the same key and the same value.
pub open spec fn unique_pairs(ms: Seq<MemoryView>) -> bool {
    forall|i: int, j: int|
        0 <= i < j < ms.len() ==> !((#[trigger] ms[i]).key == (#[trigger] ms[j]).key && ms[i].value
            == ms[j].value)
}

/// Some entry with the key `key` carries a positive time.
pub open spec fn has_timed_entry(ms: Seq<MemoryView>, key: Seq<char>) -> bool {
    exists|j: int| 0 <= j < ms.len() && (#[trigger] ms[j]).key == key && ms[j].timestamp > 0
}

/// A key with an entry of positive time has a newest entry to update.
proof fn lemma_timed_entry_has_latest(ms: Seq<MemoryView>, key: Seq<char>)
    requires
        has_timed_entry(ms, key),
    ensures
        exists|i: int| is_latest(ms, key, i),
{
    let w = choose|j: int| 0 <= j < ms.len() && (#[trigger] ms[j]).key == key && ms[j].timestamp > 0;
    let len = ms.len() as int;
    lemma_newest_in_prefix_exists(ms, key, len, w);
    let j = choose|j: int| #[trigger] newest_in_prefix(ms, key, len, j);
    if w != j {
        assert(newer(ms, j, w));
    }
    assert forall|q: int| 0 <= q < ms.len() && #[trigger] ms[q].key == key implies ms[q].timestamp
        <= ms[j].timestamp by {
        if q != j {
            assert(newer(ms, j, q));
        }
    }
    assert forall|q: int| 0 <= q < j && #[trigger] ms[q].key == key implies ms[q].timestamp
        < ms[j].timestamp by {
        assert(newer(ms, j, q));
    }
    assert(is_latest(ms, key, j));
}

/// Adding a memory never makes two entries with the same key and value: a
/// store without such a pair keeps none after a successful add, holds the
/// written pair exactly once, grows by at most one entry, and does not grow
/// when the pair was there already or the key had an entry with a positive
/// time.
pub proof fn lemma_add_keeps_pairs_unique(
    ms: Seq<MemoryView>,
    key: Seq<char>,
    value: Seq<char>,
    tags: Seq<Seq<char>>,
    now: u64,
)
    requires
        unique_pairs(ms),
        add_result(ms, key, value, tags, now) is Ok,
    ensures
        ({
            let r = add_result(ms, key, value, tags, now)->Ok_0;
            &&& unique_pairs(r)
            &&& exists|i: int|
                0 <= i < r.len() && (#[trigger] r[i]).key == key && r[i].value == value && forall|j: int|
                    0 <= j < r.len() && j != i && (#[trigger] r[j]).key == key ==> r[j].value != value
            &&& r.len() <= ms.len() + 1
            &&& (has_entry(ms, key, value) || has_timed_entry(ms, key)) ==> r.len() == ms.len()
        }),
{
    let r = add_result(ms, key, value, tags, now)->Ok_0;
    if has_timed_entry(ms, key) {
        lemma_timed_entry_has_latest(ms, key);
    }
    if has_entry(ms, key, value) {
        let i = choose|i: int| 0 <= i < ms.len() && (#[trigger] ms[i]).key == key && ms[i].value == value;
        assert forall|j: int| 0 <= j < r.len() && j != i && (#[trigger] r[j]).key == key implies r[j].value
            != value by {
            if j < i {
                assert(!(ms[j].key == ms[i].key && ms[j].value == ms[i].value));
            } else {
                assert(!(ms[i].key == ms[j].key && ms[i].value == ms[j].value));
            }
        }
    } else if exists|i: int| is_latest(ms, key, i) {
        let i = choose|i: int| is_latest(ms, key, i);
        assert(r[i].key == key && r[i].value == value);
        assert forall|a: int, b: int| 0 <= a < b < r.len() implies !((#[trigger] r[a]).key == (
        #[trigger] r[b]).key && r[a].value == r[b].value) by {
            if a != i && b != i {
                assert(r[a] == ms[a] && r[b] == ms[b]);
            } else if a == i {
                assert(r[b] == ms[b]);
            } else {
                assert(r[a] == ms[a]);
            }
        }
        assert forall|j: int| 0 <= j < r.len() && j != i && (#[trigger] r[j]).key == key implies r[j].value
            != value by {
            assert(r[j] == ms[j]);
        }
    } else {
        let i = ms.len() as int;
        assert(r[i].key == key && r[i].value == value);
        assert forall|a: int, b: int| 0 <= a < b < r.len() implies !((#[trigger] r[a]).key == (
        #[trigger] r[b]).key && r[a].value == r[b].value) by {
            assert(r[a] == ms[a]);
            if b != i {
                assert(r[b] == ms[b]);
            }
        }
        assert forall|j: int| 0 <= j < r.len() && j != i && (#[trigger] r[j]).key == key implies r[j].value
            != value by {
            assert(r[j] == ms[j]);
        }
    }
}

/// A rising list of indices below `n` that holds every index below `n` is
/// `0, 1, ..., n - 1`: its first `k` entries are `0, ..., k - 1`.
proof fn lemma_rising_cover_prefix(idx: Seq<int>, n: int, k: int)
    requires
        0 <= k <= idx.len(),
        forall|q: int| 0 <= q < idx.len() ==> 0 <= #[trigger] idx[q] < n,
        forall|q1: int, q2: int| 0 <= q1 < q2 < idx.len() ==> #[trigger] idx[q1] < #[trigger] idx[q2],
        forall|i: int| 0 <= i < n ==> #[trigger] idx.contains(i),
    ensures
        forall|q: int| 0 <= q < k ==> #[trigger] idx[q] == q,
    decreases k,
{
    if k > 0 {
        let c = k - 1;
        lemma_rising_cover_prefix(idx, n, c);
        if c > 0 {
            assert(idx[c - 1] < idx[c]);
        }
        if idx[c] != c {
            assert(idx[c] > c);
            assert(idx.contains(c));
            let m = choose|m: int| 0 <= m < idx.len() && idx[m] == c;
            if m > c {
                assert(idx[c] < idx[m]);
            }
        }
    }
}

/// A rising list of indices below `n` that holds every index below `n` is
/// exactly `0, 1, ..., n - 1`.
proof fn lemma_rising_cover_is_identity(idx: Seq<int>, n: int)
    requires
        0 <= n,
        forall|q: int| 0 <= q < idx.len() ==> 0 <= #[trigger] idx[q] < n,
        forall|q1: int, q2: int| 0 <= q1 < q2 < idx.len() ==> #[trigger] idx[q1] < #[trigger] idx[q2],
        forall|i: int| 0 <= i < n ==> #[trigger] idx.contains(i),
    ensures
        idx.len() == n,
        forall|q: int| 0 <= q < n ==> #[trigger] idx[q] == q,
{
    lemma_rising_cover_prefix(idx, n, idx.len() as int);
    if idx.len() > n {
        assert(idx[n] == n);
    }
    if idx.len() < n {
        let l = idx.len() as int;
        assert(idx.contains(l));
        let m = choose|m: int| 0 <= m < idx.len() && idx[m] == l;
        assert(idx[m] == m);
    }
}

/// Deduplicating twice gives what deduplicating once gave: the second pass
/// removes nothing and leaves the memories in their order.
pub proof fn lemma_deduplicate_twice(ms: Seq<MemoryView>, r: Seq<MemoryView>, r2: Seq<MemoryView>)
    requires
        deduplicated(ms, r),
        deduplicated(r, r2),
    ensures
        r2 == r,
{
    lemma_deduplicated_keys_distinct(ms, r);
    let idx = choose|idx: Seq<int>|
        dedup_order(ms, idx) && r.len() == idx.len() && forall|k: int|
            0 <= k < r.len() ==> #[trigger] r[k] == ms[idx[k]];
    let idx2 = choose|idx2: Seq<int>|
        dedup_order(r, idx2) && r2.len() == idx2.len() && forall|k: int|
            0 <= k < r2.len() ==> #[trigger] r2[k] == r[idx2[k]];
    assert forall|a: int, b: int| 0 <= a < b < r.len() implies (#[trigger] r[a]).timestamp
        >= (#[trigger] r[b]).timestamp by {
        assert(newer(ms, idx[a], idx[b]));
    }
    assert forall|i: int| 0 <= i < r.len() implies #[trigger] idx2.contains(i) by {
        assert forall|j: int| 0 <= j < r.len() && j != i && #[trigger] r[j].key == r[i].key implies newer(
            r,
            i,
            j,
        ) by {
            if i < j {
                assert((r[i]).key != (r[j]).key);
            } else {
                assert((r[j]).key != (r[i]).key);
            }
        }
        assert(is_newest_of_key(r, i));
    }
    assert forall|q: int| 0 <= q < idx2.len() implies 0 <= #[trigger] idx2[q] < r.len() by {
        assert(is_newest_of_key(r, idx2[q]));
    }
    assert forall|q1: int, q2: int| 0 <= q1 < q2 < idx2.len() implies #[trigger] idx2[q1]
        < #[trigger] idx2[q2] by {
        let x = idx2[q1];
        let y = idx2[q2];
        assert(newer(r, x, y));
        assert(is_newest_of_key(r, x) && is_newest_of_key(r, y));
        if y < x {
            assert(r[y].timestamp >= r[x].timestamp);
        }
    }
    lemma_rising_cover_is_identity(idx2, r.len() as int);
    assert(r2 =~= r);
}

/// The names of the memory-store server's tools.
pub open spec fn memory_store_tool_names() -> Seq<Seq<char>> {
    seq![
        "store_memory"@,
        "retrieve_memory_by_key"@,
        "retrieve_memory_by_tag"@,
        "list_all_memories"@,
        "delete_memory_by_key"@,
        "deduplicate_memories"@,
    ]
}

/// The tools of the memory-store server: names, descriptions and schemas.
pub open spec fn memory_store_tool_views() -> Seq<(Seq<char>, Seq<char>, Json)> {
    seq![
        (
            "store_memory"@,
            "Store a key-value pair with optional tags."@,
            members_schema(
                seq![
                    ("key"@, plain_param(ParamKind::Str, "Unique identifier for the memory"@)),
                    ("value"@, plain_param(ParamKind::Str, "Content of the memory"@)),
                    ("tags"@, plain_param(ParamKind::StrArray, "Optional tags for categorization"@)),
                ],
                Some(seq!["key"@, "value"@]),
            ),
        ),
        (
            "retrieve_memory_by_key"@,
            "Retrieve memories matching a specific key."@,
            members_schema(seq![("key"@, plain_param(ParamKind::Str, "The key to search for"@))], Some(seq!["key"@])),
        ),
        (
            "retrieve_memory_by_tag"@,
            "Retrieve memories matching a specific tag."@,
            members_schema(seq![("tag"@, plain_param(ParamKind::Str, "The tag to search for"@))], Some(seq!["tag"@])),
        ),
        ("list_all_memories"@, "List all stored memories."@, members_schema(Seq::empty(), None)),
        (
            "delete_memory_by_key"@,
            "Delete memories matching a specific key."@,
            members_schema(
                seq![("key"@, plain_param(ParamKind::Str, "The key of the memory to delete"@))],
                Some(seq!["key"@]),
            ),
        ),
        (
            "deduplicate_memories"@,
            "Remove duplicate memories, keeping only the most recent version of each key."@,
            members_schema(Seq::empty(), None),
        ),
    ]
}

/// The tools of the memory-store server.
pub fn memory_store_tools() -> (r: Vec<ToolSpec>)
    ensures
        tool_names(r@) == memory_store_tool_names(),
        tool_views(r@) == memory_store_tool_views(),
{
    let ghost views = memory_store_tool_views();
    let p0 = vec![
        param("key", ParamKind::Str, "Unique identifier for the memory"),
        param("value", ParamKind::Str, "Content of the memory"),
        param("tags", ParamKind::StrArray, "Optional tags for categorization"),
    ];
    let q0 = vec![String::from_str("key"), String::from_str("value")];
    assert(params_members(p0@) =~~= views[0].2->Object_0[1].1->Object_0);
    assert(strings_view(q0@) =~= seq!["key"@, "value"@]);
    let t0 = tool("store_memory", "Store a key-value pair with optional tags.", p0, Some(q0));
    assert(tool_view(t0) =~~= views[0]);
    let p1 = vec![param("key", ParamKind::Str, "The key to search for")];
    let q1 = vec![String::from_str("key")];
    assert(params_members(p1@) =~~= views[1].2->Object_0[1].1->Object_0);
    assert(strings_view(q1@) =~= seq!["key"@]);
    let t1 = tool("retrieve_memory_by_key", "Retrieve memories matching a specific key.", p1, Some(q1));
    assert(tool_view(t1) =~~= views[1]);
    let p2 = vec![param("tag", ParamKind::Str, "The tag to search for")];
    let q2 = vec![String::from_str("tag")];
    assert(params_members(p2@) =~~= views[2].2->Object_0[1].1->Object_0);
    assert(strings_view(q2@) =~= seq!["tag"@]);
    let t2 = tool("retrieve_memory_by_tag", "Retrieve memories matching a specific tag.", p2, Some(q2));
    assert(tool_view(t2) =~~= views[2]);
    let p3: Vec<ParamSpec> = Vec::new();
    assert(params_members(p3@) =~~= views[3].2->Object_0[1].1->Object_0);
    let t3 = tool("list_all_memories", "List all stored memories.", p3, None);
    assert(tool_view(t3) =~~= views[3]);
    let p4 = vec![param("key", ParamKind::Str, "The key of the memory to delete")];
    let q4 = vec![String::from_str("key")];
    assert(params_members(p4@) =~~= views[4].2->Object_0[1].1->Object_0);
    assert(strings_view(q4@) =~= seq!["key"@]);
    let t4 = tool("delete_memory_by_key", "Delete memories matching a specific key.", p4, Some(q4));
    assert(tool_view(t4) =~~= views[4]);
    let p5: Vec<ParamSpec> = Vec::new();
    assert(params_members(p5@) =~~= views[5].2->Object_0[1].1->Object_0);
    let t5 = tool(
        "deduplicate_memories",
        "Remove duplicate memories, keeping only the most recent version of each key.",
        p5,
        None,
    );
    assert(tool_view(t5) =~~= views[5]);
    let r = vec![t0, t1, t2, t3, t4, t5];
    assert(tool_views(r@) =~~= views);
    assert(tool_names(r@) =~= memory_store_tool_names());
    r
}

/// What the memory-store server does with a request.
pub enum Dispatch {
    /// Answer with this response.
    Respond(Response),
    /// Run a tool; these are the request's parameters, still to be read as
    /// `{"name", "args"}`.
    ExecuteTool(JsonValue),
}

/// How the server answers `initialize`: its name, `version`, and its tools.
pub open spec fn memory_store_initialize_reply(version: Seq<char>, tools: Seq<ToolSpec>) -> Json {
    crate::mcp::servers::protocol::initialize_result_json(
        "memory-store-mcp"@,
        version,
        tools,
        "parameters"@,
        Seq::empty(),
        true,
    )
}

/// What the server does with a request: `initialize` gives its
/// capabilities, `shutdown` a `null` result, `mcp/tool/execute` runs a tool
/// (missing parameters are an error), and any other method is not found.
pub fn dispatch_request(request: &Request, version: &str) -> (d: Dispatch)
    ensures
        request.method@ == "initialize"@ ==> (d matches Dispatch::Respond(r) && exists|tools: Seq<ToolSpec>|
            tool_views(tools) == memory_store_tool_views() && #[trigger] is_result(
                r,
                request_id_json(request),
                memory_store_initialize_reply(version@, tools),
            )),
        request.method@ == "shutdown"@ ==> (d matches Dispatch::Respond(r) && is_result(
            r,
            request_id_json(request),
            Json::Null,
        )),
        request.method@ == "mcp/tool/execute"@ ==> match request.params {
            None => d matches Dispatch::Respond(r) && replies(
                r,
                request_id_json(request),
                Reply::Error(-32602i64, "Missing parameters for mcp/tool/execute"@),
            ),
            Some(p) => d matches Dispatch::ExecuteTool(q) && q@ == p@,
        },
        request.method@ != "initialize"@ && request.method@ != "shutdown"@ && request.method@
            != "mcp/tool/execute"@ ==> (d matches Dispatch::Respond(r) && replies(
            r,
            request_id_json(request),
            Reply::Error(-32601i64, "Method not found: "@ + request.method@),
        )),
{
    proof {
        reveal_strlit("initialize");
        reveal_strlit("shutdown");
        reveal_strlit("mcp/tool/execute");
        assert("initialize"@[0] != "shutdown"@[0]);
        assert("initialize"@[0] != "mcp/tool/execute"@[0]);
        assert("shutdown"@[0] != "mcp/tool/execute"@[0]);
    }
    let id = request_id(request);
    let m = request.method.as_str();
    if str_eq(m, "initialize") {
        let tools = memory_store_tools();
        let resources: Vec<ResourceSpec> = Vec::new();
        let result = initialize_result("memory-store-mcp", version, &tools, "parameters", &resources, true);
        assert(resources@ =~= Seq::<ResourceSpec>::empty());
        let r = result_response(id, result);
        assert(is_result(r, request_id_json(request), memory_store_initialize_reply(version@, tools@)));
        Dispatch::Respond(r)
    } else if str_eq(m, "shutdown") {
        Dispatch::Respond(result_response(id, JsonValue::Null))
    } else if str_eq(m, "mcp/tool/execute") {
        match &request.params {
            None => Dispatch::Respond(
                error_response(id, -32602, String::from_str("Missing parameters for mcp/tool/execute"), None),
            ),
            Some(p) => Dispatch::ExecuteTool(p.copy()),
        }
    } else {
        Dispatch::Respond(error_response(id, -32601, cat2("Method not found: ", m), None))
    }
}

/// The id a request is answered with.
pub open spec fn request_id_json(request: &Request) -> Json {
    match request.id {
        Some(i) => i@,
        None => Json::Null,
    }
}

/// A response, and whether the store must be saved before it is sent.
pub struct Handled {
    pub response: Response,
    pub save: bool,
}

/// A JSON number for a count.
pub open spec fn count_json(n: nat) -> Json {
    Json::Number(dec(n))
}

/// The reply listing `ms`: `{"memories": [...], "count": n}`.
pub open spec fn listing(ms: Seq<MemoryView>) -> Seq<(Seq<char>, Json)> {
    seq![("memories"@, memories_json(ms)), ("count"@, count_json(ms.len()))]
}

/// What running a tool other than `deduplicate_memories` does: the store
/// after, the reply, and whether the store is saved.
pub open spec fn tool_outcome(
    ms: Seq<MemoryView>,
    tool: Seq<char>,
    args: Json,
    now: u64,
) -> (Seq<MemoryView>, Reply, bool) {
    if tool == "store_memory"@ {
        match (get_str(args, "key"@), get_str(args, "value"@)) {
            (Some(k), Some(v)) => match add_result(ms, k, v, arg_strings_spec(args, "tags"@), now) {
                Ok(ms2) => (
                    ms2,
                    Reply::Result(Json::Object(seq![("success"@, Json::Bool(true)), ("key"@, Json::Str(k))])),
                    true,
                ),
                Err(e) => (ms, Reply::Error(-32001i64, e), false),
            },
            _ => (ms, Reply::Error(-32602i64, "Invalid store_memory parameters"@), false),
        }
    } else if tool == "retrieve_memory_by_key"@ {
        match get_str(args, "key"@) {
            Some(k) => (ms, Reply::Result(Json::Object(listing(ms.filter(has_key(k))))), false),
            None => (ms, Reply::Error(-32602i64, "Invalid parameters: missing key"@), false),
        }
    } else if tool == "retrieve_memory_by_tag"@ {
        match get_str(args, "tag"@) {
            Some(t) => {
                let found = if trim(t).len() == 0 {
                    Seq::<MemoryView>::empty()
                } else {
                    ms.filter(has_tag(t))
                };
                (ms, Reply::Result(Json::Object(listing(found).push(("tag"@, Json::Str(t))))), false)
            },
            None => (ms, Reply::Error(-32602i64, "Invalid parameters: missing tag"@), false),
        }
    } else if tool == "list_all_memories"@ {
        (ms, Reply::Result(Json::Object(listing(ms))), false)
    } else if tool == "delete_memory_by_key"@ {
        match get_str(args, "key"@) {
            Some(k) => {
                let ms2 = ms.filter(lacks_key(k));
                let n = (ms.len() - ms2.len()) as nat;
                (
                    ms2,
                    Reply::Result(
                        Json::Object(
                            seq![("deleted"@, Json::Bool(n > 0)), ("count"@, count_json(n)), ("key"@, Json::Str(k))],
                        ),
                    ),
                    n > 0,
                )
            },
            None => (ms, Reply::Error(-32602i64, "Invalid parameters: missing key"@), false),
        }
    } else {
        (ms, Reply::Error(-32601i64, "Unknown tool: "@ + tool), false)
    }
}

/// The reply of `deduplicate_memories` that removed `removed` memories and
/// left `remaining`.
pub open spec fn dedup_reply(removed: nat, remaining: nat) -> Json {
    Json::Object(
        seq![
            ("success"@, Json::Bool(true)),
            ("removed_count"@, count_json(removed)),
            ("remaining_count"@, count_json(remaining)),
        ],
    )
}

/// The listing reply for `found`, as JSON members.
fn listing_members(found: &Vec<Memory>) -> (r: Vec<(String, JsonValue)>)
    ensures
        members_view(r@) == listing(memories_view(found@)),
{
    let r = vec![
        member("memories", memories_to_json(found)),
        member("count", JsonValue::Number(usize_to_string(found.len()))),
    ];
    assert(members_view(r@) =~= listing(memories_view(found@)));
    r
}

/// Runs the tool `tool_name` with `args` at the second `now` (see
/// [`tool_outcome`]; `deduplicate_memories` keeps the newest memory of
/// each key and reports how many went and how many are left).
pub fn execute_tool(store: &mut MemoryStore, id: JsonValue, tool_name: &str, args: &JsonValue, now: u64) -> (h: Handled)
    ensures
        tool_name@ == "deduplicate_memories"@ ==> deduplicated(old(store)@, final(store)@)
            && is_result(h.response, id@, dedup_reply((old(store)@.len() - final(store)@.len()) as nat, final(store)@.len()))
            && h.save == (final(store)@.len() < old(store)@.len()),
        tool_name@ != "deduplicate_memories"@ ==> ({
            let (ms2, reply, save) = tool_outcome(old(store)@, tool_name@, args@, now);
            final(store)@ == ms2 && replies(h.response, id@, reply) && h.save == save
        }),
{
    proof {
        reveal_strlit("store_memory");
        reveal_strlit("retrieve_memory_by_key");
        reveal_strlit("retrieve_memory_by_tag");
        reveal_strlit("list_all_memories");
        reveal_strlit("delete_memory_by_key");
        reveal_strlit("deduplicate_memories");
        assert("store_memory"@[0] != "retrieve_memory_by_key"@[0]);
        assert("store_memory"@[0] != "list_all_memories"@[0]);
        assert("store_memory"@[0] != "delete_memory_by_key"@[0]);
        assert("store_memory"@[0] != "deduplicate_memories"@[0]);
        assert("retrieve_memory_by_key"@[0] != "list_all_memories"@[0]);
        assert("retrieve_memory_by_key"@[0] != "delete_memory_by_key"@[0]);
        assert("retrieve_memory_by_key"@[0] != "deduplicate_memories"@[0]);
        assert("retrieve_memory_by_tag"@[0] != "list_all_memories"@[0]);
        assert("retrieve_memory_by_tag"@[0] != "delete_memory_by_key"@[0]);
        assert("retrieve_memory_by_tag"@[0] != "deduplicate_memories"@[0]);
        assert("retrieve_memory_by_key"@[19] != "retrieve_memory_by_tag"@[19]);
        assert("list_all_memories"@[0] != "delete_memory_by_key"@[0]);
        assert("list_all_memories"@[0] != "deduplicate_memories"@[0]);
        assert("delete_memory_by_key"@[2] != "deduplicate_memories"@[2]);
    }
    if str_eq(tool_name, "store_memory") {
        let key = arg_str(args, "key");
        let value = arg_str(args, "value");
        match (key, value) {
            (Some(k), Some(v)) => {
                let tags = arg_strings(args, "tags");
                match store.add_memory_at(k.as_str(), v.as_str(), tags, now) {
                    Ok(()) => {
                        let m = vec![member("success", JsonValue::Bool(true)), member("key", json_str(k.as_str()))];
                        assert(members_view(m@) =~= seq![("success"@, Json::Bool(true)), ("key"@, Json::Str(k@))]);
                        Handled { response: result_response(id, json_object(m)), save: true }
                    },
                    Err(e) => Handled { response: error_response(id, -32001, e, None), save: false },
                }
            },
            _ => Handled {
                response: error_response(id, -32602, String::from_str("Invalid store_memory parameters"), None),
                save: false,
            },
        }
    } else if str_eq(tool_name, "retrieve_memory_by_key") {
        match arg_str(args, "key") {
            Some(k) => {
                let found = store.get_by_key(k.as_str());
                let m = listing_members(&found);
                Handled { response: result_response(id, json_object(m)), save: false }
            },
            None => Handled {
                response: error_response(id, -32602, String::from_str("Invalid parameters: missing key"), None),
                save: false,
            },
        }
    } else if str_eq(tool_name, "retrieve_memory_by_tag") {
        match arg_str(args, "tag") {
            Some(t) => {
                let found = store.get_by_tag(t.as_str());
                let mut m = listing_members(&found);
                let ghost before = members_view(m@);
                m.push(member("tag", json_str(t.as_str())));
                assert(members_view(m@) =~= before.push(("tag"@, Json::Str(t@))));
                Handled { response: result_response(id, json_object(m)), save: false }
            },
            None => Handled {
                response: error_response(id, -32602, String::from_str("Invalid parameters: missing tag"), None),
                save: false,
            },
        }
    } else if str_eq(tool_name, "list_all_memories") {
        let all = store.get_all_memories();
        let m = listing_members(&all);
        Handled { response: result_response(id, json_object(m)), save: false }
    } else if str_eq(tool_name, "delete_memory_by_key") {
        match arg_str(args, "key") {
            Some(k) => {
                let n = store.delete_by_key(k.as_str());
                let m = vec![
                    member("deleted", JsonValue::Bool(n > 0)),
                    member("count", JsonValue::Number(usize_to_string(n))),
                    member("key", json_str(k.as_str())),
                ];
                assert(members_view(m@) =~= seq![("deleted"@, Json::Bool(n > 0)), ("count"@, count_json(n as nat)), ("key"@, Json::Str(k@))]);
                Handled { response: result_response(id, json_object(m)), save: n > 0 }
            },
            None => Handled {
                response: error_response(id, -32602, String::from_str("Invalid parameters: missing key"), None),
                save: false,
            },
        }
    } else if str_eq(tool_name, "deduplicate_memories") {
        let removed = store.deduplicate();
        let m = vec![
            member("success", JsonValue::Bool(true)),
            member("removed_count", JsonValue::Number(usize_to_string(removed))),
            member("remaining_count", JsonValue::Number(usize_to_string(store.memories.len()))),
        ];
        assert(members_view(m@) =~= seq![
            ("success"@, Json::Bool(true)),
            ("removed_count"@, count_json(removed as nat)),
            ("remaining_count"@, count_json(store@.len())),
        ]);
        Handled { response: result_response(id, json_object(m)), save: removed > 0 }
    } else {
        Handled { response: error_response(id, -32601, cat2("Unknown tool: ", tool_name), None), save: false }
    }
}

/// The answer to tool parameters that do not read as `{"name", "args"}`.
pub fn invalid_tool_params(id: JsonValue, reason: &str, params: JsonValue) -> (r: Response)
    ensures
        replies(r, id@, Reply::Error(-32602i64, "Invalid parameters for tool/execute: "@ + reason@)),
        r.error matches Some(e) && e.data == Some(params),
{
    error_response(id, -32602, cat2("Invalid parameters for tool/execute: ", reason), Some(params))
}

} // verus!
