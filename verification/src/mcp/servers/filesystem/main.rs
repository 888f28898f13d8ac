//! The standalone file system server: the metadata it reports of a path.

use vstd::prelude::*;
use crate::json::{get_str, json_get, json_object, json_str, json_u64, member, members_view, Json, JsonValue};
use crate::mcp::rpc::{Request, Response};
use crate::mcp::servers::memory::answer_id;
use crate::mcp::servers::protocol::{
    initialize_result, initialize_result_json, is_result, members_schema, param, param_schema, params_members, plain_param,
    request_id, resource_views, result_response, tool, tool_names, tool_view, tool_views, ParamKind, ParamSpec, ResourceSpec,
    ToolSpec,
};
use crate::text::{cat2, chars_of, dec, str_eq, string_of, strings_view};

verus! {

/// What the file system says of a path, read by the caller.
pub struct FileStat {
    pub is_dir: bool,
    pub is_file: bool,
    pub is_symlink: bool,
    pub len: u64,
    /// The modification time, as the caller prints it, if known.
    pub modified: Option<String>,
    /// The creation time, as the caller prints it, if known.
    pub created: Option<String>,
}

/// The metadata reported for a path.
pub struct FileInfo {
    pub name: String,
    pub path: String,
    pub is_dir: bool,
    pub size: Option<u64>,
    pub modified: Option<String>,
    pub created: Option<String>,
    pub is_symlink: bool,
}

/// The components of a `/`-separated path that name something: empty
/// components and `.` are dropped.
pub open spec fn named_components(p: Seq<char>) -> Seq<Seq<char>>
    decreases p.len(),
{
    if p.len() == 0 {
        Seq::empty()
    } else {
        let n = first_component_len(p);
        let c = p.take(n as int);
        let rest = if n < p.len() {
            p.skip(n + 1int)
        } else {
            Seq::empty()
        };
        if c.len() == 0 || c == seq!['.'] {
            named_components(rest)
        } else {
            seq![c] + named_components(rest)
        }
    }
}

/// The length of the first `/`-separated component of `p`.
pub open spec fn first_component_len(p: Seq<char>) -> nat
    decreases p.len(),
{
    if p.len() == 0 || p[0] == '/' {
        0
    } else {
        1 + first_component_len(p.drop_first())
    }
}

/// `Path::file_name`: the last component, unless the path has none or ends
/// in `..`.
pub open spec fn file_name_spec(p: Seq<char>) -> Option<Seq<char>> {
    let cs = named_components(p);
    if cs.len() == 0 || cs.last() == seq!['.', '.'] {
        None
    } else {
        Some(cs.last())
    }
}

proof fn lemma_first_component_len(p: Seq<char>)
    ensures
        first_component_len(p) <= p.len(),
        forall|i: int| 0 <= i < first_component_len(p) ==> p[i] != '/',
        first_component_len(p) < p.len() ==> p[first_component_len(p) as int] == '/',
    decreases p.len(),
{
    if p.len() > 0 && p[0] != '/' {
        lemma_first_component_len(p.drop_first());
        assert forall|i: int| 0 <= i < first_component_len(p) implies p[i] != '/' by {
            if i > 0 {
                assert(p[i] == p.drop_first()[i - 1]);
            }
        }
        if first_component_len(p) < p.len() {
            assert(p[first_component_len(p) as int] == p.drop_first()[first_component_len(p) - 1]);
        }
    }
}

/// The last named component of `p` (see [`file_name_spec`]).
pub fn file_name(p: &str) -> (r: Option<String>)
    ensures
        match r {
            Some(s) => file_name_spec(p@) == Some(s@),
            None => file_name_spec(p@) is None,
        },
{
    let v = chars_of(p);
    let n = v.len();
    let mut last: Option<Vec<char>> = None;
    let mut pos: usize = 0;
    let ghost mut seen: Seq<Seq<char>> = Seq::empty();
    assert(v@.skip(0) =~= v@);
    while pos < n
        invariant
            n == v@.len(),
            pos <= n,
            named_components(v@) == seen + named_components(v@.skip(pos as int)),
            match last {
                Some(c) => seen.len() > 0 && seen.last() == c@,
                None => seen.len() == 0,
            },
        decreases n - pos,
    {
        let ghost rest = v@.skip(pos as int);
        let mut end: usize = pos;
        while end < n && v[end] != '/'
            invariant
                n == v@.len(),
                pos <= end <= n,
                forall|i: int| pos <= i < end ==> v@[i] != '/',
            decreases n - end,
        {
            end = end + 1;
        }
        proof {
            lemma_first_component_len(rest);
            assert(first_component_len(rest) == end - pos) by {
                if first_component_len(rest) < end - pos {
                    assert(rest[first_component_len(rest) as int] == v@[pos + first_component_len(rest)]);
                } else if first_component_len(rest) > end - pos {
                    assert(rest[end - pos] == v@[end as int]);
                }
            }
        }
        let mut comp: Vec<char> = Vec::new();
        let mut k: usize = pos;
        while k < end
            invariant
                pos <= k <= end <= n,
                n == v@.len(),
                comp@ =~= v@.subrange(pos as int, k as int),
            decreases end - k,
        {
            comp.push(v[k]);
            k = k + 1;
        }
        assert(comp@ =~= rest.take(first_component_len(rest) as int));
        let next: usize = if end < n {
            end + 1
        } else {
            end
        };
        if end < n {
            assert(rest.skip(first_component_len(rest) + 1int) =~= v@.skip(next as int));
        } else {
            assert(v@.skip(next as int) =~= Seq::<char>::empty());
        }
        let dot = comp.len() == 1 && comp[0] == '.';
        if comp.len() == 0 || dot {
            proof {
                if dot {
                    assert(comp@ =~= seq!['.']);
                }
            }
        } else {
            proof {
                assert(comp@ != seq!['.']) by {
                    if comp@.len() == 1 {
                        assert(comp@[0] != '.');
                    }
                }
                seen = seen.push(comp@);
                assert(seen.drop_last() + (seq![comp@] + named_components(v@.skip(next as int))) =~= seen + named_components(v@.skip(next as int)));
            }
            last = Some(comp);
        }
        pos = next;
    }
    assert(named_components(v@.skip(pos as int)) =~= Seq::<Seq<char>>::empty());
    assert(named_components(v@) =~= seen);
    match last {
        None => None,
        Some(c) => {
            if c.len() == 2 && c[0] == '.' && c[1] == '.' {
                assert(c@ =~= seq!['.', '.']);
                None
            } else {
                assert(c@ != seq!['.', '.']) by {
                    if c@.len() == 2 {
                        assert(c@[0] != '.' || c@[1] != '.');
                    }
                }
                Some(string_of(c.as_slice()))
            }
        },
    }
}

/// The metadata of the path `path`, from what the file system says of it:
/// its name (or the whole path when it has none), and its size when it is
/// a file.
pub fn get_file_info(path: &str, stat: FileStat) -> (r: FileInfo)
    ensures
        r.name@ == match file_name_spec(path@) {
            Some(n) => n,
            None => path@,
        },
        r.path@ == path@,
        r.is_dir == stat.is_dir,
        r.size == if stat.is_file {
            Some(stat.len)
        } else {
            None::<u64>
        },
        r.modified == stat.modified,
        r.created == stat.created,
        r.is_symlink == stat.is_symlink,
{
    let name = match file_name(path) {
        Some(n) => n,
        None => String::from_str(path),
    };
    FileInfo {
        name,
        path: String::from_str(path),
        is_dir: stat.is_dir,
        size: if stat.is_file {
            Some(stat.len)
        } else {
            None
        },
        modified: stat.modified,
        created: stat.created,
        is_symlink: stat.is_symlink,
    }
}

// --- Requests of the stand-alone file system server ---

/// A file system operation the stand-alone server asks the caller to
/// carry out, once the checks named in each variant have passed.
pub enum FileTask {
    /// The path must be a directory that exists.
    List { path: String, recursive: bool },
    /// The path must be a file that exists.
    Read { path: String },
    /// The parent directory must exist; then `mode` is read with
    /// [`write_mode`].
    Write { path: String, content: String, mode: String },
    /// The path must exist; a directory is removed (with its contents when
    /// `recursive`), anything else as a file.
    Delete { path: String, recursive: bool },
    CreateDirectory { path: String, recursive: bool },
    /// The path must exist.
    Info { path: String },
}

/// The mathematical form of a [`FileTask`].
pub enum FileTaskView {
    List(Seq<char>, bool),
    Read(Seq<char>),
    Write(Seq<char>, Seq<char>, Seq<char>),
    Delete(Seq<char>, bool),
    CreateDirectory(Seq<char>, bool),
    Info(Seq<char>),
}

impl View for FileTask {
    type V = FileTaskView;

    open spec fn view(&self) -> FileTaskView {
        match self {
            FileTask::List { path, recursive } => FileTaskView::List(path@, *recursive),
            FileTask::Read { path } => FileTaskView::Read(path@),
            FileTask::Write { path, content, mode } => FileTaskView::Write(path@, content@, mode@),
            FileTask::Delete { path, recursive } => FileTaskView::Delete(path@, *recursive),
            FileTask::CreateDirectory { path, recursive } => FileTaskView::CreateDirectory(path@, *recursive),
            FileTask::Info { path } => FileTaskView::Info(path@),
        }
    }
}

/// A text argument that must be a string when given: `Ok(None)` when it
/// is missing, `Err` with the fault that stops the server when it is not a
/// string.
pub open spec fn required_text(args: Json, key: Seq<char>) -> Result<Option<Seq<char>>, Seq<char>> {
    match json_get(args, key) {
        None => Ok(None),
        Some(Json::Str(s)) => Ok(Some(s)),
        Some(_) => Err(key + " must be a string"@),
    }
}

/// A flag argument, false when missing or not a boolean.
pub open spec fn flag_of(args: Json, key: Seq<char>) -> bool {
    match json_get(args, key) {
        Some(Json::Bool(b)) => b,
        _ => false,
    }
}

/// What a call of the tool `name` with `args` asks for: a task, an error
/// to answer (`Ok(Err((code, message)))`), or a fault that stops the server.
pub open spec fn file_task_spec(name: Seq<char>, args: Json) -> Result<Result<FileTaskView, (i64, Seq<char>)>, Seq<char>> {
    let known = name == "list_directory"@ || name == "read_file"@ || name == "write_file"@ || name == "delete"@
        || name == "create_directory"@ || name == "file_info"@;
    if !known {
        Ok(Err((-32601i64, "Tool not found: "@ + name)))
    } else {
        match required_text(args, "path"@) {
            Err(m) => Err(m),
            Ok(None) => Ok(Err((-32602i64, "Missing required parameter: path"@))),
            Ok(Some(p)) => if name == "list_directory"@ {
                Ok(Ok(FileTaskView::List(p, flag_of(args, "recursive"@))))
            } else if name == "read_file"@ {
                Ok(Ok(FileTaskView::Read(p)))
            } else if name == "write_file"@ {
                match required_text(args, "content"@) {
                    Err(m) => Err(m),
                    Ok(None) => Ok(Err((-32602i64, "Missing required parameter: content"@))),
                    Ok(Some(c)) => Ok(Ok(FileTaskView::Write(p, c, match get_str(args, "mode"@) {
                        Some(m) => m,
                        None => "overwrite"@,
                    }))),
                }
            } else if name == "delete"@ {
                Ok(Ok(FileTaskView::Delete(p, flag_of(args, "recursive"@))))
            } else if name == "create_directory"@ {
                Ok(Ok(FileTaskView::CreateDirectory(p, flag_of(args, "recursive"@))))
            } else {
                Ok(Ok(FileTaskView::Info(p)))
            },
        }
    }
}

fn required_text_of(args: &JsonValue, key: &str) -> (r: Result<Option<String>, String>)
    ensures
        match required_text(args@, key@) {
            Ok(None) => r matches Ok(None),
            Ok(Some(s)) => r matches Ok(Some(t)) && t@ == s,
            Err(m) => r matches Err(e) && e@ == m,
        },
{
    match args.get(key) {
        None => Ok(None),
        Some(JsonValue::Str(s)) => Ok(Some(s.clone())),
        Some(_) => Err(cat2(key, " must be a string")),
    }
}

fn flag_of_exec(args: &JsonValue, key: &str) -> (r: bool)
    ensures
        r == flag_of(args@, key@),
{
    match args.get(key) {
        Some(JsonValue::Bool(b)) => *b,
        _ => false,
    }
}

/// What a call of the tool `name` with `args` asks for (see
/// [`file_task_spec`]).
pub fn file_task(name: &str, args: &JsonValue) -> (r: Result<Result<FileTask, (i64, String)>, String>)
    ensures
        match file_task_spec(name@, args@) {
            Err(m) => r matches Err(e) && e@ == m,
            Ok(Err((c, m))) => r matches Ok(Err((c2, m2))) && c2 == c && m2@ == m,
            Ok(Ok(t)) => r matches Ok(Ok(task)) && task@ == t,
        },
{
    proof {
        reveal_strlit("list_directory");
        reveal_strlit("read_file");
        reveal_strlit("write_file");
        reveal_strlit("delete");
        reveal_strlit("create_directory");
        reveal_strlit("file_info");
        reveal_strlit("overwrite");
    }
    let known = str_eq(name, "list_directory") || str_eq(name, "read_file") || str_eq(name, "write_file")
        || str_eq(name, "delete") || str_eq(name, "create_directory") || str_eq(name, "file_info");
    if !known {
        return Ok(Err((-32601, cat2("Tool not found: ", name))));
    }
    let path = match required_text_of(args, "path") {
        Err(m) => return Err(m),
        Ok(None) => return Ok(Err((-32602, String::from_str("Missing required parameter: path")))),
        Ok(Some(p)) => p,
    };
    if str_eq(name, "list_directory") {
        Ok(Ok(FileTask::List { path, recursive: flag_of_exec(args, "recursive") }))
    } else if str_eq(name, "read_file") {
        Ok(Ok(FileTask::Read { path }))
    } else if str_eq(name, "write_file") {
        let content = match required_text_of(args, "content") {
            Err(m) => return Err(m),
            Ok(None) => return Ok(Err((-32602, String::from_str("Missing required parameter: content")))),
            Ok(Some(c)) => c,
        };
        let mode = match crate::mcp::servers::protocol::arg_str(args, "mode") {
            Some(m) => m,
            None => String::from_str("overwrite"),
        };
        Ok(Ok(FileTask::Write { path, content, mode }))
    } else if str_eq(name, "delete") {
        Ok(Ok(FileTask::Delete { path, recursive: flag_of_exec(args, "recursive") }))
    } else if str_eq(name, "create_directory") {
        Ok(Ok(FileTask::CreateDirectory { path, recursive: flag_of_exec(args, "recursive") }))
    } else {
        Ok(Ok(FileTask::Info { path }))
    }
}

/// How a file is written.
pub enum WriteMode {
    /// Only when it does not exist yet.
    Create,
    Append,
    Overwrite,
}

/// The write mode named `mode`, if it is one.
pub fn write_mode(mode: &str) -> (r: Option<WriteMode>)
    ensures
        mode@ == "create"@ <==> r matches Some(WriteMode::Create),
        mode@ == "append"@ <==> r matches Some(WriteMode::Append),
        mode@ == "overwrite"@ <==> r matches Some(WriteMode::Overwrite),
{
    proof {
        reveal_strlit("create");
        reveal_strlit("append");
        reveal_strlit("overwrite");
        assert("create"@[0] != "append"@[0]);
        assert("create"@.len() != "overwrite"@.len());
        assert("append"@.len() != "overwrite"@.len());
    }
    if str_eq(mode, "create") {
        Some(WriteMode::Create)
    } else if str_eq(mode, "append") {
        Some(WriteMode::Append)
    } else if str_eq(mode, "overwrite") {
        Some(WriteMode::Overwrite)
    } else {
        None
    }
}

/// A check on a path that failed.
pub enum PathCheck {
    Missing,
    MissingFile,
    NotDirectory,
    NotFile,
    MissingParent,
    BadMode,
}

/// The message of a failed check on `subject` (a path, or a mode).
pub open spec fn check_message(c: PathCheck, subject: Seq<char>) -> Seq<char> {
    match c {
        PathCheck::Missing => "Path does not exist: "@ + subject,
        PathCheck::MissingFile => "File does not exist: "@ + subject,
        PathCheck::NotDirectory => "Path is not a directory: "@ + subject,
        PathCheck::NotFile => "Path is not a file: "@ + subject,
        PathCheck::MissingParent => "Parent directory does not exist: "@ + subject,
        PathCheck::BadMode => "Invalid mode: "@ + subject,
    }
}

/// The message of a failed check (see [`check_message`]); it is answered
/// with the code -32602.
pub fn check_failure(c: PathCheck, subject: &str) -> (r: String)
    ensures
        r@ == check_message(c, subject@),
{
    match c {
        PathCheck::Missing => cat2("Path does not exist: ", subject),
        PathCheck::MissingFile => cat2("File does not exist: ", subject),
        PathCheck::NotDirectory => cat2("Path is not a directory: ", subject),
        PathCheck::NotFile => cat2("Path is not a file: ", subject),
        PathCheck::MissingParent => cat2("Parent directory does not exist: ", subject),
        PathCheck::BadMode => cat2("Invalid mode: ", subject),
    }
}

/// The message of an operation that failed with `e` (code -32000).
pub open spec fn task_failure_message(t: FileTaskView, e: Seq<char>) -> Seq<char> {
    match t {
        FileTaskView::List(_, _) => "Failed to list directory: "@ + e,
        FileTaskView::Read(_) => "Failed to read file: "@ + e,
        FileTaskView::Write(_, _, _) => "Failed to write file: "@ + e,
        FileTaskView::Delete(_, _) => "Failed to delete: "@ + e,
        FileTaskView::CreateDirectory(_, _) => "Failed to create directory: "@ + e,
        FileTaskView::Info(_) => "Failed to get file info: "@ + e,
    }
}

/// The message of an operation that failed with `e` (see
/// [`task_failure_message`]).
pub fn task_failure(t: &FileTask, e: &str) -> (r: String)
    ensures
        r@ == task_failure_message(t@, e@),
{
    match t {
        FileTask::List { .. } => cat2("Failed to list directory: ", e),
        FileTask::Read { .. } => cat2("Failed to read file: ", e),
        FileTask::Write { .. } => cat2("Failed to write file: ", e),
        FileTask::Delete { .. } => cat2("Failed to delete: ", e),
        FileTask::CreateDirectory { .. } => cat2("Failed to create directory: ", e),
        FileTask::Info { .. } => cat2("Failed to get file info: ", e),
    }
}

/// `{"success": true, "path": path}`, the answer to a change.
pub fn changed_json(path: &str) -> (r: JsonValue)
    ensures
        r@ == Json::Object(seq![("success"@, Json::Bool(true)), ("path"@, Json::Str(path@))]),
{
    let m = vec![member("success", JsonValue::Bool(true)), member("path", json_str(path))];
    assert(members_view(m@) =~= seq![("success"@, Json::Bool(true)), ("path"@, Json::Str(path@))]);
    json_object(m)
}

/// `{"content": content}`, the answer to a read.
pub fn content_json(content: &str) -> (r: JsonValue)
    ensures
        r@ == Json::Object(seq![("content"@, Json::Str(content@))]),
{
    let m = vec![member("content", json_str(content))];
    assert(members_view(m@) =~= seq![("content"@, Json::Str(content@))]);
    json_object(m)
}

/// The names of the stand-alone server's tools.
pub open spec fn file_tool_names() -> Seq<Seq<char>> {
    seq!["list_directory"@, "read_file"@, "write_file"@, "delete"@, "create_directory"@, "file_info"@]
}

/// `p` with the default value `d`.
fn with_default(mut p: ParamSpec, d: JsonValue) -> (r: ParamSpec)
    ensures
        r.name == p.name,
        r.kind == p.kind,
        r.description == p.description,
        r.choices == p.choices,
        r.default == Some(d),
{
    p.default = Some(d);
    p
}

/// The texts `v`, owned.
fn strings(v: Vec<&str>) -> (r: Vec<String>)
    ensures
        r@.map_values(|s: String| s@) == v@.map_values(|s: &str| s@),
{
    let mut out: Vec<String> = Vec::new();
    let mut i: usize = 0;
    while i < v.len()
        invariant
            i <= v@.len(),
            out@.len() == i,
            forall|k: int| 0 <= k < i ==> (#[trigger] out@[k])@ == v@[k]@,
        decreases v.len() - i,
    {
        out.push(String::from_str(v[i]));
        i = i + 1;
    }
    assert(out@.map_values(|s: String| s@) =~= v@.map_values(|s: &str| s@));
    out
}

/// The tools of the stand-alone file system server: names, descriptions
/// and schemas.
pub open spec fn file_tool_views() -> Seq<(Seq<char>, Seq<char>, Json)> {
    seq![
        ("list_directory"@, "Lists contents of a directory"@, members_schema(seq![("path"@, plain_param(ParamKind::Str, "Path to the directory to list"@)), ("recursive"@, param_schema(ParamKind::Bool, "Whether to list subdirectories recursively"@, Some(Json::Bool(false)), Seq::empty()))], Some(seq!["path"@]))),
        ("read_file"@, "Reads content of a file"@, members_schema(seq![("path"@, plain_param(ParamKind::Str, "Path to the file to read"@)), ("encoding"@, param_schema(ParamKind::Str, "File encoding (defaults to utf-8)"@, Some(Json::Str("utf-8"@)), Seq::empty()))], Some(seq!["path"@]))),
        ("write_file"@, "Writes content to a file"@, members_schema(seq![("path"@, plain_param(ParamKind::Str, "Path to the file to write"@)), ("content"@, plain_param(ParamKind::Str, "Content to write to the file"@)), ("mode"@, param_schema(ParamKind::Str, "Write mode: 'create', 'append', or 'overwrite'"@, Some(Json::Str("overwrite"@)), seq!["create"@, "append"@, "overwrite"@]))], Some(seq!["path"@, "content"@]))),
        ("delete"@, "Deletes a file or directory"@, members_schema(seq![("path"@, plain_param(ParamKind::Str, "Path to the file or directory to delete"@)), ("recursive"@, param_schema(ParamKind::Bool, "Whether to recursively delete directories"@, Some(Json::Bool(false)), Seq::empty()))], Some(seq!["path"@]))),
        ("create_directory"@, "Creates a new directory"@, members_schema(seq![("path"@, plain_param(ParamKind::Str, "Path to the directory to create"@)), ("recursive"@, param_schema(ParamKind::Bool, "Whether to create parent directories if they don't exist"@, Some(Json::Bool(false)), Seq::empty()))], Some(seq!["path"@]))),
        ("file_info"@, "Gets information about a file or directory"@, members_schema(seq![("path"@, plain_param(ParamKind::Str, "Path to the file or directory"@))], Some(seq!["path"@]))),
    ]
}

/// The tools of the stand-alone file system server.
pub fn file_tools() -> (r: Vec<ToolSpec>)
    ensures
        tool_names(r@) == file_tool_names(),
        tool_views(r@) == file_tool_views(),
{
    let ghost views = file_tool_views();
    let mut mode = with_default(param("mode", ParamKind::Str, "Write mode: 'create', 'append', or 'overwrite'"), json_str("overwrite"));
    mode.choices = strings(vec!["create", "append", "overwrite"]);
    assert(strings_view(mode.choices@) =~= seq!["create"@, "append"@, "overwrite"@]);
    let p0 = vec![param("path", ParamKind::Str, "Path to the directory to list"), with_default(param("recursive", ParamKind::Bool, "Whether to list subdirectories recursively"), JsonValue::Bool(false))];
    let q0 = strings(vec!["path"]);
    assert(params_members(p0@) =~~= views[0].2->Object_0[1].1->Object_0);
    assert(strings_view(q0@) =~= seq!["path"@]);
    let t0 = tool("list_directory", "Lists contents of a directory", p0, Some(q0));
    assert(tool_view(t0) =~~= views[0]);
    let p1 = vec![param("path", ParamKind::Str, "Path to the file to read"), with_default(param("encoding", ParamKind::Str, "File encoding (defaults to utf-8)"), json_str("utf-8"))];
    let q1 = strings(vec!["path"]);
    assert(params_members(p1@) =~~= views[1].2->Object_0[1].1->Object_0);
    assert(strings_view(q1@) =~= seq!["path"@]);
    let t1 = tool("read_file", "Reads content of a file", p1, Some(q1));
    assert(tool_view(t1) =~~= views[1]);
    let p2 = vec![param("path", ParamKind::Str, "Path to the file to write"), param("content", ParamKind::Str, "Content to write to the file"), mode];
    let q2 = strings(vec!["path", "content"]);
    assert(params_members(p2@) =~~= views[2].2->Object_0[1].1->Object_0);
    assert(strings_view(q2@) =~= seq!["path"@, "content"@]);
    let t2 = tool("write_file", "Writes content to a file", p2, Some(q2));
    assert(tool_view(t2) =~~= views[2]);
    let p3 = vec![param("path", ParamKind::Str, "Path to the file or directory to delete"), with_default(param("recursive", ParamKind::Bool, "Whether to recursively delete directories"), JsonValue::Bool(false))];
    let q3 = strings(vec!["path"]);
    assert(params_members(p3@) =~~= views[3].2->Object_0[1].1->Object_0);
    assert(strings_view(q3@) =~= seq!["path"@]);
    let t3 = tool("delete", "Deletes a file or directory", p3, Some(q3));
    assert(tool_view(t3) =~~= views[3]);
    let p4 = vec![param("path", ParamKind::Str, "Path to the directory to create"), with_default(param("recursive", ParamKind::Bool, "Whether to create parent directories if they don't exist"), JsonValue::Bool(false))];
    let q4 = strings(vec!["path"]);
    assert(params_members(p4@) =~~= views[4].2->Object_0[1].1->Object_0);
    assert(strings_view(q4@) =~= seq!["path"@]);
    let t4 = tool("create_directory", "Creates a new directory", p4, Some(q4));
    assert(tool_view(t4) =~~= views[4]);
    let p5 = vec![param("path", ParamKind::Str, "Path to the file or directory")];
    let q5 = strings(vec!["path"]);
    assert(params_members(p5@) =~~= views[5].2->Object_0[1].1->Object_0);
    assert(strings_view(q5@) =~= seq!["path"@]);
    let t5 = tool("file_info", "Gets information about a file or directory", p5, Some(q5));
    assert(tool_view(t5) =~~= views[5]);
    let r = vec![t0, t1, t2, t3, t4, t5];
    assert(tool_views(r@) =~~= views);
    assert(tool_names(r@) =~= file_tool_names());
    r
}

/// The answer to `initialize` of the stand-alone file system server.
pub fn handle_file_initialize(request: &Request) -> (r: Response)
    ensures
        exists|tools: Seq<ToolSpec>, resources: Seq<ResourceSpec>|
            tool_views(tools) == file_tool_views() && resource_views(resources)
                == crate::mcp::servers::filesystem::fs_resource_views() && #[trigger] is_result(
                r,
                answer_id(request),
                initialize_result_json("filesystem-mcp"@, "1.0.0"@, tools, "schema"@, resources, false),
            ),
{
    let tools = file_tools();
    let resources = crate::mcp::servers::filesystem::fs_resources();
    let result = initialize_result("filesystem-mcp", "1.0.0", &tools, "schema", &resources, false);
    let r = result_response(request_id(request), result);
    assert(is_result(r, answer_id(request), initialize_result_json("filesystem-mcp"@, "1.0.0"@, tools@, "schema"@, resources@, false)));
    r
}

/// A text that may be missing, as JSON.
pub open spec fn optional_text(t: Option<String>) -> Json {
    match t {
        Some(s) => Json::Str(s@),
        None => Json::Null,
    }
}

/// What is reported of a path, as JSON.
pub open spec fn file_info_json(i: FileInfo) -> Json {
    Json::Object(
        seq![
            ("name"@, Json::Str(i.name@)),
            ("path"@, Json::Str(i.path@)),
            ("is_dir"@, Json::Bool(i.is_dir)),
            ("size"@, match i.size {
                Some(n) => Json::Number(dec(n as nat)),
                None => Json::Null,
            }),
            ("modified"@, optional_text(i.modified)),
            ("created"@, optional_text(i.created)),
            ("is_symlink"@, Json::Bool(i.is_symlink)),
        ],
    )
}

fn optional_text_json(t: &Option<String>) -> (r: JsonValue)
    ensures
        r@ == optional_text(*t),
{
    match t {
        Some(s) => json_str(s.as_str()),
        None => JsonValue::Null,
    }
}

/// What is reported of a path, as JSON (see [`file_info_json`]).
pub fn file_info_to_json(i: &FileInfo) -> (r: JsonValue)
    ensures
        r@ == file_info_json(*i),
{
    let size = match i.size {
        Some(n) => json_u64(n),
        None => JsonValue::Null,
    };
    let m = vec![
        member("name", json_str(i.name.as_str())),
        member("path", json_str(i.path.as_str())),
        member("is_dir", JsonValue::Bool(i.is_dir)),
        member("size", size),
        member("modified", optional_text_json(&i.modified)),
        member("created", optional_text_json(&i.created)),
        member("is_symlink", JsonValue::Bool(i.is_symlink)),
    ];
    assert(members_view(m@) =~= seq![
        ("name"@, Json::Str(i.name@)),
        ("path"@, Json::Str(i.path@)),
        ("is_dir"@, Json::Bool(i.is_dir)),
        ("size"@, match i.size {
            Some(n) => Json::Number(dec(n as nat)),
            None => Json::Null,
        }),
        ("modified"@, optional_text(i.modified)),
        ("created"@, optional_text(i.created)),
        ("is_symlink"@, Json::Bool(i.is_symlink)),
    ]);
    json_object(m)
}

} // verus!
