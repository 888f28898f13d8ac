//! A JSON value model for the messages that the library reads and writes,
//! with the accessors the protocol logic uses and the schema sanitizer that
//! makes tool schemas acceptable to the Gemini API.
//!
//! Numbers are kept as the text that `serde_json` prints for them, so that
//! the model holds no floating point value.

use vstd::prelude::*;
use crate::text::{
    chars_of, dec, dec_signed, i64_to_string, owned, parse_u64, parse_u64_spec, str_eq,
    u64_to_string,
};

verus! {

/// A JSON value.
pub enum JsonValue {
    Null,
    Bool(bool),
    /// A number, as its JSON text.
    Number(String),
    Str(String),
    Array(Vec<JsonValue>),
    /// An object, as its members in order.
    Object(Vec<(String, JsonValue)>),
}

/// The mathematical form of a JSON value.
pub enum Json {
    Null,
    Bool(bool),
    Number(Seq<char>),
    Str(Seq<char>),
    Array(Seq<Json>),
    Object(Seq<(Seq<char>, Json)>),
}

/// The mathematical form of `v`.
pub open spec fn json_of(v: JsonValue) -> Json
    decreases v,
{
    match v {
        JsonValue::Null => Json::Null,
        JsonValue::Bool(b) => Json::Bool(b),
        JsonValue::Number(n) => Json::Number(n@),
        JsonValue::Str(s) => Json::Str(s@),
        JsonValue::Array(a) => Json::Array(
            Seq::new(
                a@.len(),
                |i: int|
                    if 0 <= i < a@.len() {
                        json_of(a@[i])
                    } else {
                        Json::Null
                    },
            ),
        ),
        JsonValue::Object(m) => Json::Object(
            Seq::new(
                m@.len(),
                |i: int|
                    if 0 <= i < m@.len() {
                        (m@[i].0@, json_of(m@[i].1))
                    } else {
                        (Seq::empty(), Json::Null)
                    },
            ),
        ),
    }
}

impl View for JsonValue {
    type V = Json;

    open spec fn view(&self) -> Json {
        json_of(*self)
    }
}

/// The mathematical form of a list of values.
pub open spec fn items_view(s: Seq<JsonValue>) -> Seq<Json> {
    Seq::new(s.len(), |i: int| json_of(s[i]))
}

/// The mathematical form of a list of object members.
pub open spec fn members_view(s: Seq<(String, JsonValue)>) -> Seq<(Seq<char>, Json)> {
    Seq::new(s.len(), |i: int| (s[i].0@, json_of(s[i].1)))
}

pub proof fn lemma_array_view(a: Vec<JsonValue>)
    ensures
        json_of(JsonValue::Array(a)) == Json::Array(items_view(a@)),
{
    if let Json::Array(x) = json_of(JsonValue::Array(a)) {
        assert(x =~= items_view(a@));
    }
}

pub proof fn lemma_object_view(m: Vec<(String, JsonValue)>)
    ensures
        json_of(JsonValue::Object(m)) == Json::Object(members_view(m@)),
{
    if let Json::Object(x) = json_of(JsonValue::Object(m)) {
        assert(x =~= members_view(m@));
    }
}

/// The value of the first member of `ms` named `key`, as `Map::get` finds it
/// in an object whose member names are distinct.
pub open spec fn members_get(ms: Seq<(Seq<char>, Json)>, key: Seq<char>) -> Option<Json>
    decreases ms.len(),
{
    if ms.len() == 0 {
        None
    } else if ms[0].0 == key {
        Some(ms[0].1)
    } else {
        members_get(ms.drop_first(), key)
    }
}

/// `Value::get` with a string key: the member `key` of an object.
pub open spec fn json_get(j: Json, key: Seq<char>) -> Option<Json> {
    match j {
        Json::Object(ms) => members_get(ms, key),
        _ => None,
    }
}

/// `Value::as_str`.
pub open spec fn json_as_str(j: Json) -> Option<Seq<char>> {
    match j {
        Json::Str(s) => Some(s),
        _ => None,
    }
}

/// `Value::as_bool`.
pub open spec fn json_as_bool(j: Json) -> Option<bool> {
    match j {
        Json::Bool(b) => Some(b),
        _ => None,
    }
}

/// `Value::as_u64`: a number written with digits only, within `u64`.
pub open spec fn json_as_u64(j: Json) -> Option<u64> {
    match j {
        Json::Number(t) => if t.len() > 0 && t[0] != '+' {
            parse_u64_spec(t)
        } else {
            None
        },
        _ => None,
    }
}

/// `Value::as_array`.
pub open spec fn json_as_array(j: Json) -> Option<Seq<Json>> {
    match j {
        Json::Array(a) => Some(a),
        _ => None,
    }
}

/// `obj.get(key).and_then(Value::as_str)`.
pub open spec fn get_str(j: Json, key: Seq<char>) -> Option<Seq<char>> {
    match json_get(j, key) {
        Some(v) => json_as_str(v),
        None => None,
    }
}

/// The strings among `items`, in order, as `filter_map(Value::as_str)` keeps them.
pub open spec fn strings_of(items: Seq<Json>) -> Seq<Seq<char>>
    decreases items.len(),
{
    if items.len() == 0 {
        Seq::empty()
    } else {
        let rest = strings_of(items.drop_last());
        match items.last() {
            Json::Str(s) => rest.push(s),
            _ => rest,
        }
    }
}

impl JsonValue {
    /// The member `key` of an object; `None` for other values.
    pub fn get(&self, key: &str) -> (r: Option<&JsonValue>)
        ensures
            match r {
                Some(v) => json_get(self@, key@) == Some(v@),
                None => json_get(self@, key@) is None,
            },
    {
        match self {
            JsonValue::Object(members) => {
                proof {
                    lemma_object_view(*members);
                }
                let ghost ms = members_view(members@);
                let k = owned(key);
                let mut i: usize = 0;
                assert(ms.skip(0) =~= ms);
                while i < members.len()
                    invariant
                        *self == JsonValue::Object(*members),
                        json_of(*self) == Json::Object(ms),
                        ms == members_view(members@),
                        k@ == key@,
                        i <= members@.len(),
                        members_get(ms, key@) == members_get(ms.skip(i as int), key@),
                    decreases members@.len() - i,
                {
                    assert(ms.skip(i as int)[0] == ms[i as int]);
                    assert(ms.skip(i as int).drop_first() =~= ms.skip(i as int + 1));
                    if members[i].0 == k {
                        assert(ms[i as int] == (members@[i as int].0@, json_of(members@[i as int].1)));
                        assert(members_get(ms.skip(i as int), key@) == Some(ms[i as int].1));
                        return Some(&members[i].1);
                    }
                    i = i + 1;
                }
                assert(ms.skip(i as int).len() == 0);
                None
            },
            _ => None,
        }
    }

    /// The text of a string value.
    pub fn as_str(&self) -> (r: Option<&str>)
        ensures
            match r {
                Some(s) => json_as_str(self@) == Some(s@),
                None => json_as_str(self@) is None,
            },
    {
        match self {
            JsonValue::Str(s) => Some(s.as_str()),
            _ => None,
        }
    }

    /// The value of a boolean.
    pub fn as_bool(&self) -> (r: Option<bool>)
        ensures
            r == json_as_bool(self@),
    {
        match self {
            JsonValue::Bool(b) => Some(*b),
            _ => None,
        }
    }

    /// The value of a number written as a `u64`.
    pub fn as_u64(&self) -> (r: Option<u64>)
        ensures
            r == json_as_u64(self@),
    {
        match self {
            JsonValue::Number(t) => {
                let v = chars_of(t.as_str());
                if v.len() > 0 && v[0] != '+' {
                    parse_u64(t.as_str())
                } else {
                    None
                }
            },
            _ => None,
        }
    }

    /// The elements of an array.
    pub fn as_array(&self) -> (r: Option<&Vec<JsonValue>>)
        ensures
            match r {
                Some(a) => json_as_array(self@) == Some(items_view(a@)),
                None => json_as_array(self@) is None,
            },
    {
        match self {
            JsonValue::Array(a) => {
                proof {
                    lemma_array_view(*a);
                }
                Some(a)
            },
            _ => None,
        }
    }

    /// Whether the value is `null`.
    pub fn is_null(&self) -> (r: bool)
        ensures
            r == (self@ == Json::Null),
    {
        match self {
            JsonValue::Null => true,
            _ => false,
        }
    }

    /// A copy of the value.
    pub fn copy(&self) -> (r: JsonValue)
        ensures
            r@ == self@,
        decreases self,
    {
        match self {
            JsonValue::Null => JsonValue::Null,
            JsonValue::Bool(b) => JsonValue::Bool(*b),
            JsonValue::Number(n) => JsonValue::Number(n.clone()),
            JsonValue::Str(s) => JsonValue::Str(s.clone()),
            JsonValue::Array(a) => {
                let mut out: Vec<JsonValue> = Vec::new();
                let mut i: usize = 0;
                while i < a.len()
                    invariant
                        *self == JsonValue::Array(*a),
                        i <= a@.len(),
                        out@.len() == i,
                        forall|k: int| 0 <= k < i ==> json_of(#[trigger] out@[k]) == json_of(a@[k]),
                    decreases a@.len() - i,
                {
                    proof {
                        assert(decreases_to!(*self => self->Array_0));
                        assert(decreases_to!(*a => a@));
                        assert(decreases_to!(a@ => a@[i as int]));
                    }
                    let c = a[i].copy();
                    out.push(c);
                    i = i + 1;
                }
                proof {
                    lemma_array_view(*a);
                    lemma_array_view(out);
                    assert(items_view(out@) =~= items_view(a@));
                }
                JsonValue::Array(out)
            },
            JsonValue::Object(m) => {
                let mut out: Vec<(String, JsonValue)> = Vec::new();
                let mut i: usize = 0;
                while i < m.len()
                    invariant
                        *self == JsonValue::Object(*m),
                        i <= m@.len(),
                        out@.len() == i,
                        forall|k: int|
                            0 <= k < i ==> (#[trigger] out@[k]).0 == m@[k].0 && json_of(out@[k].1)
                                == json_of(m@[k].1),
                    decreases m@.len() - i,
                {
                    proof {
                        assert(decreases_to!(*self => self->Object_0));
                        assert(decreases_to!(*m => m@));
                        assert(decreases_to!(m@ => m@[i as int]));
                        assert(decreases_to!(m@[i as int] => m@[i as int].1));
                    }
                    let c = m[i].1.copy();
                    out.push((m[i].0.clone(), c));
                    i = i + 1;
                }
                proof {
                    lemma_object_view(*m);
                    lemma_object_view(out);
                    assert(members_view(out@) =~= members_view(m@));
                }
                JsonValue::Object(out)
            },
        }
    }
}

/// A string value.
pub fn json_str(s: &str) -> (r: JsonValue)
    ensures
        r@ == Json::Str(s@),
{
    JsonValue::Str(owned(s))
}

/// A number value for an unsigned integer.
pub fn json_u64(n: u64) -> (r: JsonValue)
    ensures
        r@ == Json::Number(dec(n as nat)),
{
    JsonValue::Number(u64_to_string(n))
}

/// A number value for a signed integer.
pub fn json_i64(n: i64) -> (r: JsonValue)
    ensures
        r@ == Json::Number(dec_signed(n as int)),
{
    JsonValue::Number(i64_to_string(n))
}

/// The strings of an array, in order, skipping other values.
pub fn string_items(items: &Vec<JsonValue>) -> (r: Vec<String>)
    ensures
        r@.map_values(|s: String| s@) == strings_of(items_view(items@)),
{
    let mut out: Vec<String> = Vec::new();
    let mut i: usize = 0;
    while i < items.len()
        invariant
            i <= items@.len(),
            out@.map_values(|s: String| s@) == strings_of(items_view(items@).take(i as int)),
        decreases items@.len() - i,
    {
        let ghost t = items_view(items@).take(i as int + 1);
        assert(t.drop_last() =~= items_view(items@).take(i as int));
        match &items[i] {
            JsonValue::Str(s) => {
                out.push(s.clone());
                assert(out@.map_values(|s: String| s@) =~= strings_of(t));
            },
            _ => {
                assert(out@.map_values(|s: String| s@) =~= strings_of(t));
            },
        }
        i = i + 1;
    }
    assert(items_view(items@).take(items@.len() as int) =~= items_view(items@));
    out
}

// --- Schema sanitizing ---

/// Member names that the Gemini API does not accept in a schema.
pub open spec fn is_unsupported_key(k: Seq<char>) -> bool {
    k == "default"@ || k == "additionalProperties"@
}

/// A schema without the members the Gemini API rejects: at every object
/// level `default` and `additionalProperties` are removed, and the schemas
/// under `properties` and `items` are sanitized in turn.
pub open spec fn sanitize_spec(j: Json) -> Json
    decreases j,
{
    match j {
        Json::Object(ms) => Json::Object(sanitize_members(ms)),
        _ => j,
    }
}

/// The members of a sanitized object.
pub open spec fn sanitize_members(ms: Seq<(Seq<char>, Json)>) -> Seq<(Seq<char>, Json)>
    decreases ms,
{
    if ms.len() == 0 {
        Seq::empty()
    } else {
        proof {
            assert(ms.drop_last() =~= ms.subrange(0, ms.len() - 1));
            vstd::seq::axiom_seq_subrange_decreases(ms, 0, ms.len() - 1);
        }
        let rest = sanitize_members(ms.drop_last());
        let k = ms.last().0;
        let v = ms.last().1;
        if is_unsupported_key(k) {
            rest
        } else if k == "properties"@ {
            match v {
                Json::Object(ps) => rest.push((k, Json::Object(sanitize_props(ps)))),
                _ => rest.push((k, v)),
            }
        } else if k == "items"@ {
            rest.push((k, sanitize_spec(v)))
        } else {
            rest.push((k, v))
        }
    }
}

/// The members of a `properties` object, each schema sanitized.
pub open spec fn sanitize_props(ps: Seq<(Seq<char>, Json)>) -> Seq<(Seq<char>, Json)>
    decreases ps,
{
    if ps.len() == 0 {
        Seq::empty()
    } else {
        proof {
            assert(ps.drop_last() =~= ps.subrange(0, ps.len() - 1));
            vstd::seq::axiom_seq_subrange_decreases(ps, 0, ps.len() - 1);
        }
        sanitize_props(ps.drop_last()).push((ps.last().0, sanitize_spec(ps.last().1)))
    }
}

/// The member name `k` is `default` or `additionalProperties`.
pub fn is_unsupported_name(k: &str) -> (b: bool)
    ensures
        b == is_unsupported_key(k@),
{
    str_eq(k, "default") || str_eq(k, "additionalProperties")
}

/// Removes from a tool's parameter schema the members that the Gemini API
/// rejects, at every level that `properties` and `items` reach.
pub fn sanitize_json_schema(schema: &JsonValue) -> (r: JsonValue)
    ensures
        r@ == sanitize_spec(schema@),
    decreases schema,
{
    match schema {
        JsonValue::Object(m) => {
            proof {
                lemma_object_view(*m);
            }
            let ghost ms = members_view(m@);
            let mut out: Vec<(String, JsonValue)> = Vec::new();
            let mut i: usize = 0;
            assert(ms.take(0) =~= Seq::<(Seq<char>, Json)>::empty());
            assert(members_view(out@) =~= Seq::<(Seq<char>, Json)>::empty());
            while i < m.len()
                invariant
                    *schema == JsonValue::Object(*m),
                    ms == members_view(m@),
                    i <= m@.len(),
                    members_view(out@) == sanitize_members(ms.take(i as int)),
                decreases m@.len() - i,
            {
                let ghost t = ms.take(i as int + 1);
                let ghost before = members_view(out@);
                assert(t.drop_last() =~= ms.take(i as int));
                assert(t.last() == ms[i as int]);
                assert(ms[i as int] == (m@[i as int].0@, json_of(m@[i as int].1)));
                let key = &m[i].0;
                let value = &m[i].1;
                if is_unsupported_name(key.as_str()) {
                } else if str_eq(key.as_str(), "properties") {
                    match value {
                        JsonValue::Object(ps) => {
                            proof {
                                lemma_object_view(*ps);
                            }
                            let ghost pv = members_view(ps@);
                            let mut props: Vec<(String, JsonValue)> = Vec::new();
                            let mut j: usize = 0;
                            assert(pv.take(0) =~= Seq::<(Seq<char>, Json)>::empty());
                            assert(members_view(props@) =~= Seq::<(Seq<char>, Json)>::empty());
                            while j < ps.len()
                                invariant
                                    *schema == JsonValue::Object(*m),
                                    i < m@.len(),
                                    m@[i as int].1 == JsonValue::Object(*ps),
                                    pv == members_view(ps@),
                                    j <= ps@.len(),
                                    members_view(props@) == sanitize_props(pv.take(j as int)),
                                decreases ps@.len() - j,
                            {
                                proof {
                                    assert(decreases_to!(*schema => schema->Object_0));
                                    assert(decreases_to!(*m => m@));
                                    assert(decreases_to!(m@ => m@[i as int]));
                                    assert(decreases_to!(m@[i as int] => m@[i as int].1));
                                    assert(decreases_to!(m@[i as int].1 => (m@[i as int].1)->Object_0));
                                    assert(decreases_to!(*ps => ps@));
                                    assert(decreases_to!(ps@ => ps@[j as int]));
                                    assert(decreases_to!(ps@[j as int] => ps@[j as int].1));
                                }
                                let ghost pt = pv.take(j as int + 1);
                                let ghost pbefore = members_view(props@);
                                assert(pt.drop_last() =~= pv.take(j as int));
                                assert(pt.last() == pv[j as int]);
                                let sv = sanitize_json_schema(&ps[j].1);
                                props.push((ps[j].0.clone(), sv));
                                assert(members_view(props@) =~= pbefore.push((ps@[j as int].0@, sv@)));
                                j = j + 1;
                            }
                            assert(pv.take(ps@.len() as int) =~= pv);
                            proof {
                                lemma_object_view(props);
                            }
                            out.push((key.clone(), JsonValue::Object(props)));
                        },
                        _ => {
                            out.push((key.clone(), value.copy()));
                        },
                    }
                } else if str_eq(key.as_str(), "items") {
                    proof {
                        assert(decreases_to!(*schema => schema->Object_0));
                        assert(decreases_to!(*m => m@));
                        assert(decreases_to!(m@ => m@[i as int]));
                        assert(decreases_to!(m@[i as int] => m@[i as int].1));
                    }
                    let sv = sanitize_json_schema(value);
                    out.push((key.clone(), sv));
                } else {
                    out.push((key.clone(), value.copy()));
                }
                assert(members_view(out@) =~= sanitize_members(t));
                i = i + 1;
            }
            assert(ms.take(m@.len() as int) =~= ms);
            proof {
                lemma_object_view(out);
            }
            JsonValue::Object(out)
        },
        _ => schema.copy(),
    }
}

/// A schema is clean when no object in it, at any depth reached through
/// `properties` and `items`, has a `default` or an `additionalProperties`
/// member.
pub open spec fn schema_clean(j: Json) -> bool
    decreases j,
{
    match j {
        Json::Object(ms) => members_clean(ms),
        _ => true,
    }
}

/// The members of a clean schema object (see [`schema_clean`]).
pub open spec fn members_clean(ms: Seq<(Seq<char>, Json)>) -> bool
    decreases ms,
{
    if ms.len() == 0 {
        true
    } else {
        proof {
            assert(ms.drop_last() =~= ms.subrange(0, ms.len() - 1));
            vstd::seq::axiom_seq_subrange_decreases(ms, 0, ms.len() - 1);
        }
        let k = ms.last().0;
        let v = ms.last().1;
        &&& members_clean(ms.drop_last())
        &&& k != "default"@
        &&& k != "additionalProperties"@
        &&& (k == "properties"@ ==> match v {
            Json::Object(ps) => props_clean(ps),
            _ => true,
        })
        &&& (k == "items"@ ==> schema_clean(v))
    }
}

/// Every property schema of a `properties` object is clean.
pub open spec fn props_clean(ps: Seq<(Seq<char>, Json)>) -> bool
    decreases ps,
{
    if ps.len() == 0 {
        true
    } else {
        proof {
            assert(ps.drop_last() =~= ps.subrange(0, ps.len() - 1));
            vstd::seq::axiom_seq_subrange_decreases(ps, 0, ps.len() - 1);
        }
        props_clean(ps.drop_last()) && schema_clean(ps.last().1)
    }
}

/// The names of an object's members, in order.
pub open spec fn member_names(ms: Seq<(Seq<char>, Json)>) -> Seq<Seq<char>> {
    ms.map_values(|m: (Seq<char>, Json)| m.0)
}

/// A sanitized schema is clean: no `default` and no `additionalProperties`
/// is left at any depth reached through `properties` and `items`.
pub proof fn lemma_sanitized_schema_is_clean(j: Json)
    ensures
        schema_clean(sanitize_spec(j)),
    decreases j,
{
    if let Json::Object(ms) = j {
        lemma_sanitized_members_clean(ms);
    }
}

/// The members of a sanitized object are clean (see [`schema_clean`]).
pub proof fn lemma_sanitized_members_clean(ms: Seq<(Seq<char>, Json)>)
    ensures
        members_clean(sanitize_members(ms)),
    decreases ms,
{
    if ms.len() > 0 {
        assert(ms.drop_last() =~= ms.subrange(0, ms.len() - 1));
        vstd::seq::axiom_seq_subrange_decreases(ms, 0, ms.len() - 1);
        lemma_sanitized_members_clean(ms.drop_last());
        let r = sanitize_members(ms.drop_last());
        let k = ms.last().0;
        let v = ms.last().1;
        let s = sanitize_members(ms);
        reveal_strlit("default");
        reveal_strlit("additionalProperties");
        reveal_strlit("properties");
        reveal_strlit("items");
        if !is_unsupported_key(k) {
            assert(s.drop_last() =~= r);
            if k == "properties"@ {
                assert(k != "items"@) by {
                    assert(k.len() != "items"@.len());
                }
                if let Json::Object(ps) = v {
                    assert(decreases_to!(ms => ms[ms.len() - 1]));
                    lemma_sanitized_props_clean(ps);
                }
            } else if k == "items"@ {
                assert(decreases_to!(ms => ms[ms.len() - 1]));
                lemma_sanitized_schema_is_clean(v);
            }
        }
    }
}

/// The property schemas of a sanitized `properties` object are clean.
pub proof fn lemma_sanitized_props_clean(ps: Seq<(Seq<char>, Json)>)
    ensures
        props_clean(sanitize_props(ps)),
    decreases ps,
{
    if ps.len() > 0 {
        assert(ps.drop_last() =~= ps.subrange(0, ps.len() - 1));
        vstd::seq::axiom_seq_subrange_decreases(ps, 0, ps.len() - 1);
        lemma_sanitized_props_clean(ps.drop_last());
        assert(decreases_to!(ps => ps[ps.len() - 1]));
        lemma_sanitized_schema_is_clean(ps.last().1);
        let s = sanitize_props(ps);
        assert(s.drop_last() =~= sanitize_props(ps.drop_last()));
    }
}

/// Sanitizing removes only `default` and `additionalProperties`: the member
/// names of a sanitized object are the object's names without those two, in
/// order, and every member other than `properties` and `items` keeps its
/// value.
pub proof fn lemma_sanitize_keeps_other_members(ms: Seq<(Seq<char>, Json)>)
    ensures
        member_names(sanitize_members(ms)) == member_names(ms).filter(
            |k: Seq<char>| k != "default"@ && k != "additionalProperties"@,
        ),
        forall|i: int|
            0 <= i < sanitize_members(ms).len() && (#[trigger] sanitize_members(ms)[i]).0 != "properties"@
                && sanitize_members(ms)[i].0 != "items"@ ==> ms.contains(sanitize_members(ms)[i]),
    decreases ms.len(),
{
    let keep = |k: Seq<char>| k != "default"@ && k != "additionalProperties"@;
    if ms.len() == 0 {
        assert(member_names(ms) =~= Seq::<Seq<char>>::empty());
        assert(member_names(ms).filter(keep) =~= Seq::<Seq<char>>::empty());
        assert(member_names(sanitize_members(ms)) =~= Seq::<Seq<char>>::empty());
    } else {
        let init = ms.drop_last();
        lemma_sanitize_keeps_other_members(init);
        let r = sanitize_members(init);
        let s = sanitize_members(ms);
        assert(member_names(ms) =~= member_names(init).push(ms.last().0));
        member_names(init).lemma_filter_push(ms.last().0, keep);
        if is_unsupported_key(ms.last().0) {
            assert(s == r);
        } else {
            assert(s.drop_last() =~= r);
            assert(member_names(s) =~= member_names(r).push(ms.last().0));
        }
        assert forall|i: int|
            0 <= i < s.len() && (#[trigger] s[i]).0 != "properties"@ && s[i].0 != "items"@ implies ms.contains(s[i]) by {
            if i < r.len() {
                assert(s[i] == r[i]);
                let k = choose|k: int| 0 <= k < init.len() && init[k] == r[i];
                assert(ms[k] == init[k]);
            } else {
                assert(s[i] == ms.last());
                assert(ms[ms.len() - 1] == ms.last());
            }
        }
    }
}

/// The schemas under `properties` keep their property names, in order.
pub proof fn lemma_sanitize_keeps_property_names(ps: Seq<(Seq<char>, Json)>)
    ensures
        member_names(sanitize_props(ps)) == member_names(ps),
    decreases ps.len(),
{
    if ps.len() > 0 {
        lemma_sanitize_keeps_property_names(ps.drop_last());
        assert(member_names(ps) =~= member_names(ps.drop_last()).push(ps.last().0));
        assert(member_names(sanitize_props(ps)) =~= member_names(sanitize_props(ps.drop_last())).push(ps.last().0));
    } else {
        assert(member_names(sanitize_props(ps)) =~= member_names(ps));
    }
}

/// The name `k` is the name of some member of `ms`.
pub open spec fn has_member(ms: Seq<(Seq<char>, Json)>, k: Seq<char>) -> bool {
    exists|i: int| 0 <= i < ms.len() && (#[trigger] ms[i]).0 == k
}

/// A sanitized schema object has no `default` and no `additionalProperties`
/// member.
pub proof fn lemma_sanitized_has_no_unsupported(ms: Seq<(Seq<char>, Json)>, k: Seq<char>)
    requires
        is_unsupported_key(k),
    ensures
        !has_member(sanitize_members(ms), k),
    decreases ms.len(),
{
    if ms.len() > 0 {
        lemma_sanitized_has_no_unsupported(ms.drop_last(), k);
        let r = sanitize_members(ms.drop_last());
        assert forall|i: int| 0 <= i < sanitize_members(ms).len() implies (#[trigger] sanitize_members(
            ms,
        )[i]).0 != k by {
            if i < r.len() {
                assert(sanitize_members(ms)[i] == r[i]);
            }
        }
    }
}

/// Sanitizing a schema twice gives what sanitizing it once gives.
pub proof fn lemma_sanitize_idempotent(j: Json)
    ensures
        sanitize_spec(sanitize_spec(j)) == sanitize_spec(j),
    decreases j,
{
    if let Json::Object(ms) = j {
        lemma_sanitize_members_idempotent(ms);
    }
}

/// Sanitizing the members of an object twice gives what sanitizing them once gives.
pub proof fn lemma_sanitize_members_idempotent(ms: Seq<(Seq<char>, Json)>)
    ensures
        sanitize_members(sanitize_members(ms)) == sanitize_members(ms),
    decreases ms,
{
    if ms.len() > 0 {
        assert(ms.drop_last() =~= ms.subrange(0, ms.len() - 1));
        vstd::seq::axiom_seq_subrange_decreases(ms, 0, ms.len() - 1);
        lemma_sanitize_members_idempotent(ms.drop_last());
        let r = sanitize_members(ms.drop_last());
        let k = ms.last().0;
        let v = ms.last().1;
        let s = sanitize_members(ms);
        if is_unsupported_key(k) {
        } else {
            assert(s.drop_last() =~= r);
            if k == "properties"@ {
                if let Json::Object(ps) = v {
                    assert(decreases_to!(ms => ms[ms.len() - 1]));
                    lemma_sanitize_props_idempotent(ps);
                }
            } else if k == "items"@ {
                assert(decreases_to!(ms => ms[ms.len() - 1]));
                lemma_sanitize_idempotent(v);
            }
        }
    }
}

/// Sanitizing each property schema twice gives what sanitizing it once gives.
pub proof fn lemma_sanitize_props_idempotent(ps: Seq<(Seq<char>, Json)>)
    ensures
        sanitize_props(sanitize_props(ps)) == sanitize_props(ps),
    decreases ps,
{
    if ps.len() > 0 {
        assert(ps.drop_last() =~= ps.subrange(0, ps.len() - 1));
        vstd::seq::axiom_seq_subrange_decreases(ps, 0, ps.len() - 1);
        lemma_sanitize_props_idempotent(ps.drop_last());
        assert(decreases_to!(ps => ps[ps.len() - 1]));
        lemma_sanitize_idempotent(ps.last().1);
        let s = sanitize_props(ps);
        assert(s.drop_last() =~= sanitize_props(ps.drop_last()));
    }
}

/// An object with the members `members`, in order.
pub fn json_object(members: Vec<(String, JsonValue)>) -> (r: JsonValue)
    ensures
        r@ == Json::Object(members_view(members@)),
{
    proof {
        lemma_object_view(members);
    }
    JsonValue::Object(members)
}

/// A member named `k` with the value `v`.
pub fn member(k: &str, v: JsonValue) -> (r: (String, JsonValue))
    ensures
        r.0@ == k@,
        r.1@ == v@,
{
    (owned(k), v)
}

/// An array of the values `items`, in order.
pub fn json_array(items: Vec<JsonValue>) -> (r: JsonValue)
    ensures
        r@ == Json::Array(items_view(items@)),
{
    proof {
        lemma_array_view(items);
    }
    JsonValue::Array(items)
}

} // verus!
