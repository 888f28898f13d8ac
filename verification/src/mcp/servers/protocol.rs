//! What the tool servers share: building responses, reading tool
//! arguments, and describing tools with JSON schemas.

use vstd::prelude::*;
use crate::json::{
    get_str, items_view, json_array, json_get, json_object, json_str, member, members_view,
    strings_of, Json, JsonValue,
};
use crate::mcp::rpc::{JsonRpcError, Request, Response};
use crate::text::{cat2, chars_of, has_prefix, parse_usize, parse_usize_spec, starts_with, string_of, strings_view, trim, trim_str};

verus! {

/// The id to answer `request` with: its id, or `null`.
pub fn request_id(request: &Request) -> (r: JsonValue)
    ensures
        r@ == match request.id {
            Some(i) => i@,
            None => Json::Null,
        },
{
    match &request.id {
        Some(i) => i.copy(),
        None => JsonValue::Null,
    }
}

/// A successful response.
pub fn result_response(id: JsonValue, result: JsonValue) -> (r: Response)
    ensures
        is_result(r, id@, result@),
{
    Response { jsonrpc: String::from_str("2.0"), id, result: Some(result), error: None }
}

/// A failed response.
pub fn error_response(id: JsonValue, code: i64, message: String, data: Option<JsonValue>) -> (r: Response)
    ensures
        is_error(r, id@, code, message@),
        r.error matches Some(e) && e.data == data,
{
    Response {
        jsonrpc: String::from_str("2.0"),
        id,
        result: None,
        error: Some(JsonRpcError { code, message, data }),
    }
}

/// `r` answers `id` with `result`.
pub open spec fn is_result(r: Response, id: Json, result: Json) -> bool {
    &&& r.jsonrpc@ == "2.0"@
    &&& r.id@ == id
    &&& r.result matches Some(v) && v@ == result
    &&& r.error is None
}

/// `r` answers `id` with the error `code` and `message`.
pub open spec fn is_error(r: Response, id: Json, code: i64, message: Seq<char>) -> bool {
    &&& r.jsonrpc@ == "2.0"@
    &&& r.id@ == id
    &&& r.result is None
    &&& r.error matches Some(e) && e.code == code && e.message@ == message
}

/// The answer to a message that is not a request: `Parse error: ...`.
pub fn parse_error_response(reason: &str) -> (r: Response)
    ensures
        is_error(r, Json::Null, -32700i64, "Parse error: "@ + reason@),
        r.error matches Some(e) && e.data is None,
{
    error_response(JsonValue::Null, -32700, cat2("Parse error: ", reason), None)
}

/// `args.get(key).and_then(Value::as_str)`, owned.
pub fn arg_str(args: &JsonValue, key: &str) -> (r: Option<String>)
    ensures
        match r {
            Some(s) => get_str(args@, key@) == Some(s@),
            None => get_str(args@, key@) is None,
        },
{
    match args.get(key) {
        Some(v) => match v.as_str() {
            Some(s) => Some(String::from_str(s)),
            None => None,
        },
        None => None,
    }
}

/// The strings of the array `args[key]`, skipping other values; none when
/// `key` is missing or not an array.
pub open spec fn arg_strings_spec(args: Json, key: Seq<char>) -> Seq<Seq<char>> {
    match json_get(args, key) {
        Some(Json::Array(items)) => strings_of(items),
        _ => Seq::empty(),
    }
}

/// The strings of the array `args[key]` (see [`arg_strings_spec`]).
pub fn arg_strings(args: &JsonValue, key: &str) -> (r: Vec<String>)
    ensures
        strings_view(r@) == arg_strings_spec(args@, key@),
{
    match args.get(key) {
        Some(v) => match v.as_array() {
            Some(items) => {
                let r = crate::json::string_items(items);
                assert(strings_view(r@) =~= r@.map_values(|s: String| s@));
                r
            },
            None => Vec::new(),
        },
        None => Vec::new(),
    }
}

/// The type of a tool parameter.
pub enum ParamKind {
    Str,
    Bool,
    Int,
    Obj,
    /// An array of strings.
    StrArray,
}

/// One parameter of a tool.
pub struct ParamSpec {
    pub name: String,
    pub kind: ParamKind,
    pub description: String,
    pub default: Option<JsonValue>,
    /// The values allowed, when they are listed.
    pub choices: Vec<String>,
}

/// The JSON schema type name of a parameter type.
pub open spec fn kind_name(k: ParamKind) -> Seq<char> {
    match k {
        ParamKind::Str => "string"@,
        ParamKind::Bool => "boolean"@,
        ParamKind::Int => "integer"@,
        ParamKind::Obj => "object"@,
        ParamKind::StrArray => "array"@,
    }
}

fn kind_text(k: &ParamKind) -> (r: String)
    ensures
        r@ == kind_name(*k),
{
    match k {
        ParamKind::Str => String::from_str("string"),
        ParamKind::Bool => String::from_str("boolean"),
        ParamKind::Int => String::from_str("integer"),
        ParamKind::Obj => String::from_str("object"),
        ParamKind::StrArray => String::from_str("array"),
    }
}

/// JSON strings for texts.
pub open spec fn texts_json(v: Seq<Seq<char>>) -> Seq<Json> {
    v.map_values(|s: Seq<char>| Json::Str(s))
}

/// The schema of a parameter of type `kind` described by `description`:
/// its type and description, `items` for an array of strings, then its
/// `default` and its allowed values (`enum`) when given.
pub open spec fn param_schema(
    kind: ParamKind,
    description: Seq<char>,
    default: Option<Json>,
    choices: Seq<Seq<char>>,
) -> Json {
    let base = seq![("type"@, Json::Str(kind_name(kind))), ("description"@, Json::Str(description))];
    let with_items = match kind {
        ParamKind::StrArray => base.push(("items"@, Json::Object(seq![("type"@, Json::Str("string"@))]))),
        _ => base,
    };
    let with_default = match default {
        Some(d) => with_items.push(("default"@, d)),
        None => with_items,
    };
    let all = if choices.len() > 0 {
        with_default.push(("enum"@, Json::Array(texts_json(choices))))
    } else {
        with_default
    };
    Json::Object(all)
}

/// The schema of a parameter with only a type and a description.
pub open spec fn plain_param(kind: ParamKind, description: Seq<char>) -> Json {
    param_schema(kind, description, None, Seq::empty())
}

/// The schema of one parameter (see [`param_schema`]).
pub open spec fn param_json(p: ParamSpec) -> Json {
    param_schema(
        p.kind,
        p.description@,
        match p.default {
            Some(d) => Some(d@),
            None => None,
        },
        strings_view(p.choices@),
    )
}

/// An array of JSON strings.
pub fn texts_to_json(v: &Vec<String>) -> (r: JsonValue)
    ensures
        r@ == Json::Array(texts_json(strings_view(v@))),
{
    let mut items: Vec<JsonValue> = Vec::new();
    let mut i: usize = 0;
    while i < v.len()
        invariant
            i <= v@.len(),
            items@.len() == i,
            forall|k: int| 0 <= k < i ==> (#[trigger] items@[k])@ == Json::Str(v@[k]@),
        decreases v@.len() - i,
    {
        items.push(json_str(v[i].as_str()));
        i = i + 1;
    }
    let r = json_array(items);
    assert(items_view(items@) =~= texts_json(strings_view(v@)));
    r
}

/// The schema of one parameter (see [`param_json`]).
pub fn param_to_json(p: &ParamSpec) -> (r: JsonValue)
    ensures
        r@ == param_json(*p),
{
    let mut m: Vec<(String, JsonValue)> = Vec::new();
    m.push(member("type", JsonValue::Str(kind_text(&p.kind))));
    m.push(member("description", json_str(p.description.as_str())));
    let ghost base = members_view(m@);
    assert(base =~= seq![("type"@, Json::Str(kind_name(p.kind))), ("description"@, Json::Str(p.description@))]);
    let ghost before_items = members_view(m@);
    match p.kind {
        ParamKind::StrArray => {
            let t = vec![member("type", json_str("string"))];
            assert(members_view(t@) =~= seq![("type"@, Json::Str("string"@))]);
            m.push(member("items", json_object(t)));
        },
        _ => {},
    }
    let ghost before_default = m@;
    assert(members_view(m@) =~= match p.kind {
        ParamKind::StrArray => before_items.push(("items"@, Json::Object(seq![("type"@, Json::Str("string"@))]))),
        _ => before_items,
    });
    let ghost wi = members_view(m@);
    match &p.default {
        Some(d) => {
            m.push(member("default", d.copy()));
        },
        None => {},
    }
    assert(members_view(m@) =~= match p.default {
        Some(d) => wi.push(("default"@, d@)),
        None => wi,
    });
    let ghost wd = members_view(m@);
    if p.choices.len() > 0 {
        m.push(member("enum", texts_to_json(&p.choices)));
    }
    assert(members_view(m@) =~= if p.choices@.len() > 0 {
        wd.push(("enum"@, Json::Array(texts_json(strings_view(p.choices@)))))
    } else {
        wd
    });
    json_object(m)
}

/// The members `name: schema` of a list of parameters.
pub open spec fn params_members(ps: Seq<ParamSpec>) -> Seq<(Seq<char>, Json)> {
    ps.map_values(|p: ParamSpec| (p.name@, param_json(p)))
}

/// An object schema with the properties `props`, and the list of required
/// names when there is one.
pub open spec fn members_schema(props: Seq<(Seq<char>, Json)>, required: Option<Seq<Seq<char>>>) -> Json {
    let base = seq![("type"@, Json::Str("object"@)), ("properties"@, Json::Object(props))];
    match required {
        Some(req) => Json::Object(base.push(("required"@, Json::Array(texts_json(req))))),
        None => Json::Object(base),
    }
}

/// The schema of a tool's parameters (see [`members_schema`]).
pub open spec fn schema_json(ps: Seq<ParamSpec>, required: Option<Seq<Seq<char>>>) -> Json {
    members_schema(params_members(ps), required)
}

/// The schema of a tool's parameters (see [`schema_json`]).
pub fn schema_to_json(ps: &Vec<ParamSpec>, required: &Option<Vec<String>>) -> (r: JsonValue)
    ensures
        r@ == schema_json(
            ps@,
            match required {
                Some(v) => Some(strings_view(v@)),
                None => None,
            },
        ),
{
    let mut props: Vec<(String, JsonValue)> = Vec::new();
    let mut i: usize = 0;
    while i < ps.len()
        invariant
            i <= ps@.len(),
            props@.len() == i,
            forall|k: int| 0 <= k < i ==> (#[trigger] props@[k]).0@ == ps@[k].name@ && props@[k].1@ == param_json(ps@[k]),
        decreases ps@.len() - i,
    {
        props.push((ps[i].name.clone(), param_to_json(&ps[i])));
        i = i + 1;
    }
    assert(members_view(props@) =~= params_members(ps@));
    let mut m = vec![member("type", json_str("object")), member("properties", json_object(props))];
    let ghost base = members_view(m@);
    assert(base =~= seq![("type"@, Json::Str("object"@)), ("properties"@, Json::Object(params_members(ps@)))]);
    match required {
        Some(req) => {
            m.push(member("required", texts_to_json(req)));
        },
        None => {},
    }
    assert(members_view(m@) =~= match required {
        Some(v) => base.push(("required"@, Json::Array(texts_json(strings_view(v@))))),
        None => base,
    });
    json_object(m)
}

/// A tool a server describes at `initialize`.
pub struct ToolSpec {
    pub name: String,
    pub description: String,
    pub schema: JsonValue,
}

/// A resource a server describes at `initialize`.
pub struct ResourceSpec {
    pub name: String,
    pub description: String,
}

/// A tool as plain values: its name, its description and its schema.
pub open spec fn tool_view(t: ToolSpec) -> (Seq<char>, Seq<char>, Json) {
    (t.name@, t.description@, t.schema@)
}

/// A list of tools as plain values (see [`tool_view`]).
pub open spec fn tool_views(v: Seq<ToolSpec>) -> Seq<(Seq<char>, Seq<char>, Json)> {
    v.map_values(|t: ToolSpec| tool_view(t))
}

/// A list of resources as plain values: each one's name and description.
pub open spec fn resource_views(v: Seq<ResourceSpec>) -> Seq<(Seq<char>, Seq<char>)> {
    v.map_values(|x: ResourceSpec| (x.name@, x.description@))
}

/// The names of a list of tools.
pub open spec fn tool_names(v: Seq<ToolSpec>) -> Seq<Seq<char>> {
    v.map_values(|t: ToolSpec| t.name@)
}

/// A tool as JSON, its schema under `schema_key`.
pub open spec fn tool_json(t: ToolSpec, schema_key: Seq<char>) -> Json {
    Json::Object(seq![("name"@, Json::Str(t.name@)), ("description"@, Json::Str(t.description@)), (schema_key, t.schema@)])
}

/// A resource as JSON.
pub open spec fn resource_json(r: ResourceSpec) -> Json {
    Json::Object(seq![("name"@, Json::Str(r.name@)), ("description"@, Json::Str(r.description@))])
}

/// A list of tools as a JSON array.
pub fn tools_to_json(v: &Vec<ToolSpec>, schema_key: &str) -> (r: JsonValue)
    ensures
        r@ == Json::Array(v@.map_values(|t: ToolSpec| tool_json(t, schema_key@))),
{
    let mut items: Vec<JsonValue> = Vec::new();
    let mut i: usize = 0;
    while i < v.len()
        invariant
            i <= v@.len(),
            items@.len() == i,
            forall|k: int| 0 <= k < i ==> (#[trigger] items@[k])@ == tool_json(v@[k], schema_key@),
        decreases v@.len() - i,
    {
        let t = &v[i];
        let m = vec![
            member("name", json_str(t.name.as_str())),
            member("description", json_str(t.description.as_str())),
            (String::from_str(schema_key), t.schema.copy()),
        ];
        assert(members_view(m@) =~= seq![("name"@, Json::Str(t.name@)), ("description"@, Json::Str(t.description@)), (schema_key@, t.schema@)]);
        items.push(json_object(m));
        i = i + 1;
    }
    let r = json_array(items);
    assert(items_view(items@) =~= v@.map_values(|t: ToolSpec| tool_json(t, schema_key@)));
    r
}

/// A list of resources as a JSON array.
pub fn resources_to_json(v: &Vec<ResourceSpec>) -> (r: JsonValue)
    ensures
        r@ == Json::Array(v@.map_values(|x: ResourceSpec| resource_json(x))),
{
    let mut items: Vec<JsonValue> = Vec::new();
    let mut i: usize = 0;
    while i < v.len()
        invariant
            i <= v@.len(),
            items@.len() == i,
            forall|k: int| 0 <= k < i ==> (#[trigger] items@[k])@ == resource_json(v@[k]),
        decreases v@.len() - i,
    {
        let x = &v[i];
        let m = vec![member("name", json_str(x.name.as_str())), member("description", json_str(x.description.as_str()))];
        assert(members_view(m@) =~= seq![("name"@, Json::Str(x.name@)), ("description"@, Json::Str(x.description@))]);
        items.push(json_object(m));
        i = i + 1;
    }
    let r = json_array(items);
    assert(items_view(items@) =~= v@.map_values(|x: ResourceSpec| resource_json(x)));
    r
}

/// The result of `initialize`: the server's name and version, and its
/// tools and resources (the resources left out when `skip_empty` and there
/// are none).
pub open spec fn initialize_result_json(
    name: Seq<char>,
    version: Seq<char>,
    tools: Seq<ToolSpec>,
    schema_key: Seq<char>,
    resources: Seq<ResourceSpec>,
    skip_empty: bool,
) -> Json {
    let tools_member = ("tools"@, Json::Array(tools.map_values(|t: ToolSpec| tool_json(t, schema_key))));
    let res_member = ("resources"@, Json::Array(resources.map_values(|x: ResourceSpec| resource_json(x))));
    let caps = if skip_empty && resources.len() == 0 {
        seq![tools_member]
    } else {
        seq![tools_member, res_member]
    };
    Json::Object(
        seq![
            ("serverInfo"@, Json::Object(seq![("name"@, Json::Str(name)), ("version"@, Json::Str(version))])),
            ("capabilities"@, Json::Object(caps)),
        ],
    )
}

/// The result of `initialize` (see [`initialize_result_json`]).
pub fn initialize_result(
    name: &str,
    version: &str,
    tools: &Vec<ToolSpec>,
    schema_key: &str,
    resources: &Vec<ResourceSpec>,
    skip_empty: bool,
) -> (r: JsonValue)
    ensures
        r@ == initialize_result_json(name@, version@, tools@, schema_key@, resources@, skip_empty),
{
    let tj = tools_to_json(tools, schema_key);
    let mut caps = vec![member("tools", tj)];
    let ghost c0 = members_view(caps@);
    if !(skip_empty && resources.len() == 0) {
        caps.push(member("resources", resources_to_json(resources)));
    }
    assert(members_view(caps@) =~= if skip_empty && resources@.len() == 0 {
        seq![("tools"@, Json::Array(tools@.map_values(|t: ToolSpec| tool_json(t, schema_key@))))]
    } else {
        seq![
            ("tools"@, Json::Array(tools@.map_values(|t: ToolSpec| tool_json(t, schema_key@)))),
            ("resources"@, Json::Array(resources@.map_values(|x: ResourceSpec| resource_json(x)))),
        ]
    });
    let info = vec![member("name", json_str(name)), member("version", json_str(version))];
    assert(members_view(info@) =~= seq![("name"@, Json::Str(name@)), ("version"@, Json::Str(version@))]);
    let info_j = json_object(info);
    let caps_j = json_object(caps);
    let top = vec![member("serverInfo", info_j), member("capabilities", caps_j)];
    assert(members_view(top@) =~= seq![("serverInfo"@, info_j@), ("capabilities"@, caps_j@)]);
    json_object(top)
}

/// A parameter with no default and no list of allowed values.
pub fn param(name: &str, kind: ParamKind, description: &str) -> (r: ParamSpec)
    ensures
        r.name@ == name@,
        r.kind == kind,
        r.description@ == description@,
        r.default is None,
        r.choices@.len() == 0,
{
    ParamSpec {
        name: String::from_str(name),
        kind,
        description: String::from_str(description),
        default: None,
        choices: Vec::new(),
    }
}

/// A tool with a schema built from its parameters.
pub fn tool(name: &str, description: &str, params: Vec<ParamSpec>, required: Option<Vec<String>>) -> (r: ToolSpec)
    ensures
        r.name@ == name@,
        r.description@ == description@,
        r.schema@ == schema_json(
            params@,
            match required {
                Some(v) => Some(strings_view(v@)),
                None => None,
            },
        ),
{
    ToolSpec {
        name: String::from_str(name),
        description: String::from_str(description),
        schema: schema_to_json(&params, &required),
    }
}

/// How a reply to a request reads.
pub enum Reply {
    Result(Json),
    Error(i64, Seq<char>),
}

/// `r` answers `id` with `reply`.
pub open spec fn replies(r: Response, id: Json, reply: Reply) -> bool {
    match reply {
        Reply::Result(j) => is_result(r, id, j),
        Reply::Error(c, m) => is_error(r, id, c, m),
    }
}

/// What one header line read by a server says.
pub enum ServerHeader {
    /// A blank line: the headers are over.
    Blank,
    /// A `Content-Length:` line, with its value if it parses.
    Length(Option<usize>),
    /// Any other header.
    Other,
}

/// A line, trimmed, is blank, a `Content-Length:` header (whose value,
/// trimmed, is parsed), or another header.
pub open spec fn server_header_spec(line: Seq<char>) -> ServerHeader {
    let t = trim(line);
    if t.len() == 0 {
        ServerHeader::Blank
    } else if has_prefix(t, "Content-Length:"@) {
        ServerHeader::Length(parse_usize_spec(trim(t.skip(15))))
    } else {
        ServerHeader::Other
    }
}

/// What one header line says (see [`server_header_spec`]).
pub fn server_header_line(line: &str) -> (r: ServerHeader)
    ensures
        r == server_header_spec(line@),
{
    let t = trim_str(line);
    let tv = chars_of(t.as_str());
    if tv.len() == 0 {
        return ServerHeader::Blank;
    }
    let prefix = chars_of("Content-Length:");
    if starts_with(&tv, &prefix) {
        proof {
            reveal_strlit("Content-Length:");
        }
        let mut rest: Vec<char> = Vec::new();
        let mut i: usize = 15;
        while i < tv.len()
            invariant
                15 <= i <= tv@.len(),
                rest@ =~= tv@.subrange(15, i as int),
            decreases tv@.len() - i,
        {
            rest.push(tv[i]);
            i = i + 1;
        }
        assert(rest@ =~= t@.skip(15));
        let rs = string_of(rest.as_slice());
        let value = trim_str(rs.as_str());
        ServerHeader::Length(parse_usize(value.as_str()))
    } else {
        ServerHeader::Other
    }
}

} // verus!
