//! The file system server's own logic: picking a range of lines out of a
//! file, applying a unified diff with `diffy`, and the metadata it reports.

pub mod main;

use vstd::prelude::*;
use vstd::utf8::{decode_utf8, valid_utf8};
use crate::mcp::framing::{line_len, lemma_line_len, utf8_decode};
use crate::json::{get_str, json_as_bool, json_as_u64, json_get, json_object, json_str, json_u64, member, members_view, Json, JsonValue};
use crate::mcp::rpc::{Request, Response};
use crate::mcp::servers::command::property_json;
use crate::mcp::servers::memory::{answer_id, arg_or_empty, arg_text, tool_args};
use crate::mcp::servers::protocol::{
    arg_str, error_response, initialize_result, initialize_result_json, is_error, is_result, replies, request_id,
    resource_views, result_response, tool_names, tool_view, tool_views, Reply, ResourceSpec, ToolSpec,
};
use crate::text::{
    before_char, cat2, cat3, cat4, chars_before, chars_of, dec, has_prefix, is_digit, parse_usize, parse_usize_spec, str_eq,
    string_of,
};
use diffy::{ApplyError, ParsePatchError, Patch};

verus! {

/// The lines of `b` as `BufRead::lines` yields them: split at each line
/// feed, the feed and a carriage return before it removed; a last line
/// without a feed counts, an empty rest after the last feed does not.
pub open spec fn split_lines(b: Seq<u8>) -> Seq<Seq<u8>>
    decreases b.len(),
{
    if b.len() == 0 {
        Seq::empty()
    } else {
        let n = line_len(b);
        proof {
            lemma_line_len(b);
        }
        seq![strip_line_end(b.take(n as int))] + split_lines(b.skip(n as int))
    }
}

/// A line without its line feed and a carriage return before it.
pub open spec fn strip_line_end(raw: Seq<u8>) -> Seq<u8> {
    if raw.len() > 0 && raw.last() == 10u8 {
        let x = raw.drop_last();
        if x.len() > 0 && x.last() == 13u8 {
            x.drop_last()
        } else {
            x
        }
    } else {
        raw
    }
}

/// Lines joined with line feeds between them.
pub open spec fn join_lines(ls: Seq<Seq<char>>) -> Seq<char>
    decreases ls.len(),
{
    if ls.len() == 0 {
        Seq::empty()
    } else if ls.len() == 1 {
        ls[0]
    } else {
        join_lines(ls.drop_last()) + seq!['\n'] + ls.last()
    }
}

/// Line `n` (counting from 1) lies within the bounds that are given.
pub open spec fn in_range(n: int, start: Option<usize>, end: Option<usize>) -> bool {
    &&& (start matches Some(s) ==> s <= n)
    &&& (end matches Some(e) ==> n <= e)
}

/// The lines of `ls` within the bounds, the first of them being line
/// `first + 1`.
pub open spec fn selected_from(ls: Seq<Seq<u8>>, first: int, start: Option<usize>, end: Option<usize>) -> Seq<Seq<u8>>
    decreases ls.len(),
{
    if ls.len() == 0 {
        Seq::empty()
    } else {
        let rest = selected_from(ls.drop_first(), first + 1, start, end);
        if in_range(first + 1, start, end) {
            seq![ls[0]] + rest
        } else {
            rest
        }
    }
}

/// Why lines could not be read.
pub enum LinesError {
    /// `start_line` lies after `end_line`.
    BadRange,
    /// A line that was read is not UTF-8.
    NotUtf8,
}

/// What reading the lines of the file `b` between `start` and `end` gives:
/// the whole file when no bound is given, else the lines within the
/// bounds joined by line feeds.
pub open spec fn read_lines_spec(b: Seq<u8>, start: Option<usize>, end: Option<usize>) -> Result<Seq<char>, LinesError> {
    if start is None && end is None {
        if valid_utf8(b) {
            Ok(decode_utf8(b))
        } else {
            Err(LinesError::NotUtf8)
        }
    } else if start matches Some(s) && end matches Some(e) && s > e {
        Err(LinesError::BadRange)
    } else {
        let sel = selected_from(split_lines(b), 0, start, end);
        if forall|i: int| 0 <= i < sel.len() ==> valid_utf8(#[trigger] sel[i]) {
            Ok(join_lines(sel.map_values(|l: Seq<u8>| decode_utf8(l))))
        } else {
            Err(LinesError::NotUtf8)
        }
    }
}

/// The bytes `b[from..to]` as a vector.
fn copy_range(b: &[u8], from: usize, to: usize) -> (r: Vec<u8>)
    requires
        from <= to <= b@.len(),
    ensures
        r@ == b@.subrange(from as int, to as int),
{
    let mut r: Vec<u8> = Vec::new();
    let mut i: usize = from;
    while i < to
        invariant
            from <= i <= to <= b@.len(),
            r@ =~= b@.subrange(from as int, i as int),
        decreases to - i,
    {
        r.push(b[i]);
        i = i + 1;
    }
    r
}

/// Reads the lines of the file `b` between lines `start` and `end`
/// (counted from 1, both included; see [`read_lines_spec`]).
pub fn read_file_content(b: &[u8], start: Option<usize>, end: Option<usize>) -> (r: Result<String, LinesError>)
    ensures
        match read_lines_spec(b@, start, end) {
            Ok(t) => r matches Ok(s) && s@ == t,
            Err(LinesError::BadRange) => r matches Err(LinesError::BadRange),
            Err(LinesError::NotUtf8) => r matches Err(LinesError::NotUtf8),
        },
{
    if start.is_none() && end.is_none() {
        let all = copy_range(b, 0, b.len());
        assert(b@.subrange(0, b@.len() as int) =~= b@);
        return match utf8_decode(all) {
            Some(s) => Ok(s),
            None => Err(LinesError::NotUtf8),
        };
    }
    if let (Some(s), Some(e)) = (start, end) {
        if s > e {
            return Err(LinesError::BadRange);
        }
    }
    let n = b.len();
    let ghost all_sel = selected_from(split_lines(b@), 0, start, end);
    let ghost mut done: Seq<Seq<u8>> = Seq::empty();
    let mut out = String::new();
    let mut any = false;
    let mut pos: usize = 0;
    let mut lineno: usize = 0;
    assert(b@.skip(0) =~= b@);
    while pos < n
        invariant
            n == b@.len(),
            pos <= n,
            lineno <= pos,
            all_sel == selected_from(split_lines(b@), 0, start, end),
            all_sel == done + selected_from(split_lines(b@.skip(pos as int)), lineno as int, start, end),
            forall|i: int| 0 <= i < done.len() ==> valid_utf8(#[trigger] done[i]),
            any == (done.len() > 0),
            !(start is None && end is None),
            !(start matches Some(s) && end matches Some(e) && s > e),
            out@ == join_lines(done.map_values(|l: Seq<u8>| decode_utf8(l))),
        decreases n - pos,
    {
        let ghost rest = b@.skip(pos as int);
        let mut stop: usize = pos;
        while stop < n && b[stop] != 10u8
            invariant
                n == b@.len(),
                pos <= stop <= n,
                forall|i: int| pos <= i < stop ==> b@[i] != 10u8,
            decreases n - stop,
        {
            stop = stop + 1;
        }
        let next: usize = if stop < n {
            stop + 1
        } else {
            stop
        };
        proof {
            lemma_line_len(rest);
            assert(line_len(rest) == next - pos) by {
                if line_len(rest) < next - pos {
                    if line_len(rest) < rest.len() {
                        assert(rest[line_len(rest) - 1] == 10u8);
                        assert(b@[pos + line_len(rest) - 1] == 10u8);
                    }
                } else if line_len(rest) > next - pos {
                    assert(rest[next - pos - 1] == b@[next - 1]);
                }
            }
        }
        let mut line_end = stop;
        if line_end > pos && b[line_end - 1] == 13u8 && stop < n {
            line_end = line_end - 1;
        }
        let ghost raw = rest.take(line_len(rest) as int);
        assert(raw =~= b@.subrange(pos as int, next as int));
        assert(strip_line_end(raw) =~= b@.subrange(pos as int, line_end as int));
        assert(rest.skip(line_len(rest) as int) =~= b@.skip(next as int));
        let ghost line = strip_line_end(raw);
        let ghost after = selected_from(split_lines(b@.skip(next as int)), lineno as int + 1, start, end);
        assert(split_lines(rest).drop_first() =~= split_lines(b@.skip(next as int)));
        let selected = match (start, end) {
            (Some(s), Some(e)) => s <= lineno + 1 && lineno + 1 <= e,
            (Some(s), None) => s <= lineno + 1,
            (None, Some(e)) => lineno + 1 <= e,
            (None, None) => true,
        };
        if selected {
            let bytes = copy_range(b, pos, line_end);
            match utf8_decode(bytes) {
                Some(text) => {
                    let ghost old_done = done;
                    if any {
                        out.append("\n");
                    }
                    out.append(text.as_str());
                    any = true;
                    proof {
                        reveal_strlit("\n");
                        done = done.push(line);
                        assert(done.drop_last() =~= old_done);
                        assert(done.map_values(|l: Seq<u8>| decode_utf8(l)).drop_last() =~= old_done.map_values(|l: Seq<u8>| decode_utf8(l)));
                        assert(old_done + (seq![line] + after) =~= done + after);
                    }
                },
                None => {
                    proof {
                        assert(selected_from(split_lines(rest), lineno as int, start, end) =~= seq![line] + after);
                        assert(all_sel[done.len() as int] == line);
                        assert(!valid_utf8(all_sel[done.len() as int]));
                    }
                    return Err(LinesError::NotUtf8);
                },
            }
        }
        pos = next;
        lineno = lineno + 1;
    }
    assert(split_lines(b@.skip(pos as int)) =~= Seq::<Seq<u8>>::empty());
    assert(all_sel =~= done);
    Ok(out)
}

/// `diffy::ParsePatchError`, carried through opaquely.
#[verifier::external_type_specification]
#[verifier::external_body]
pub struct ExParsePatchError(ParsePatchError);

/// `diffy::ApplyError`, carried through opaquely.
#[verifier::external_type_specification]
#[verifier::external_body]
pub struct ExApplyError(ApplyError);

/// Whether `diffy` reads `text` as a unified diff.
pub uninterp spec fn patch_parses(text: Seq<char>) -> bool;

/// The line ranges of a hunk header line `@@ -a,b +c,d @@ ...`: the text
/// after `@@ ` up to the first ` @@`, when there is one.
pub open spec fn header_ranges(line: Seq<char>) -> Option<Seq<char>> {
    let rest = line.skip(3);
    match crate::chat::find_spec(rest, " @@"@) {
        Some(k) => Some(rest.take(k)),
        None => None,
    }
}

/// The start and the length of one side `-a,b` of a hunk header (`-a`
/// stands for the length 1), when both read as `usize`; the sign is not
/// looked at.
pub open spec fn range_numbers(r: Seq<char>) -> Option<(usize, usize)> {
    if r.len() == 0 {
        None
    } else {
        let body = r.skip(1);
        match crate::chat::find_spec(body, ","@) {
            Some(k) => match (parse_usize_spec(body.take(k)), parse_usize_spec(body.skip(k + 1))) {
                (Some(a), Some(b)) => Some((a, b)),
                _ => None,
            },
            None => match parse_usize_spec(body) {
                Some(a) => Some((a, 1usize)),
                None => None,
            },
        }
    }
}

/// The end, start plus length, of a side of a hunk header passes
/// `usize::MAX`.
pub open spec fn range_overflows(r: Seq<char>) -> bool {
    match range_numbers(r) {
        Some((a, b)) => a + b > usize::MAX,
        None => false,
    }
}

/// Neither side of a hunk header line `@@ -a,b +c,d @@` ends past
/// `usize::MAX`; lines of any other form pass.
pub open spec fn line_ranges_bounded(line: Seq<char>) -> bool {
    has_prefix(line, "@@ "@) ==> match header_ranges(line) {
        Some(rs) => match crate::chat::find_spec(rs, " "@) {
            Some(k) => !range_overflows(rs.take(k)) && !range_overflows(rs.skip(k + 1)),
            None => true,
        },
        None => true,
    }
}

/// No hunk header line of `s` has a side whose end passes `usize::MAX`.
pub open spec fn patch_ranges_bounded(s: Seq<char>) -> bool
    decreases s.len(),
{
    let line = before_char(s, '\n');
    proof {
        crate::text::lemma_before_char(s, '\n');
    }
    line_ranges_bounded(line) && (line.len() < s.len() ==> patch_ranges_bounded(s.skip(line.len() + 1int)))
}

/// Whether a side of a hunk header ends past `usize::MAX` (see
/// [`range_overflows`]).
fn range_overflow(r: &Vec<char>) -> (b: bool)
    ensures
        b == range_overflows(r@),
{
    if r.len() == 0 {
        return false;
    }
    let body = crate::chat::slice_chars(r, 1, r.len());
    assert(body@ =~= r@.skip(1));
    let comma = chars_of(",");
    proof {
        reveal_strlit(",");
    }
    let (a, b) = match crate::chat::find(&body, &comma) {
        Some(k) => {
            let s1 = string_of(crate::chat::slice_chars(&body, 0, k).as_slice());
            let s2 = string_of(crate::chat::slice_chars(&body, k + 1, body.len()).as_slice());
            assert(s1@ =~= body@.take(k as int));
            assert(s2@ =~= body@.skip(k + 1));
            (parse_usize(s1.as_str()), parse_usize(s2.as_str()))
        },
        None => {
            let s1 = string_of(body.as_slice());
            (parse_usize(s1.as_str()), Some(1usize))
        },
    };
    match (a, b) {
        (Some(x), Some(y)) => x > usize::MAX - y,
        _ => false,
    }
}

/// Whether a line keeps its hunk ranges within `usize` (see
/// [`line_ranges_bounded`]).
fn line_ranges_ok(line: &Vec<char>) -> (b: bool)
    ensures
        b == line_ranges_bounded(line@),
{
    let head = chars_of("@@ ");
    proof {
        reveal_strlit("@@ ");
    }
    if !crate::text::starts_with(line, &head) {
        return true;
    }
    let rest = crate::chat::slice_chars(line, 3, line.len());
    assert(rest@ =~= line@.skip(3));
    let close = chars_of(" @@");
    proof {
        reveal_strlit(" @@");
    }
    let ranges = match crate::chat::find(&rest, &close) {
        Some(k) => {
            let t = crate::chat::slice_chars(&rest, 0, k);
            assert(t@ =~= rest@.take(k as int));
            t
        },
        None => return true,
    };
    let space = chars_of(" ");
    proof {
        reveal_strlit(" ");
    }
    match crate::chat::find(&ranges, &space) {
        Some(k) => {
            let r1 = crate::chat::slice_chars(&ranges, 0, k);
            let r2 = crate::chat::slice_chars(&ranges, k + 1, ranges.len());
            assert(r1@ =~= ranges@.take(k as int));
            assert(r2@ =~= ranges@.skip(k + 1));
            !range_overflow(&r1) && !range_overflow(&r2)
        },
        None => true,
    }
}

/// Whether every hunk header of `text` ends its ranges within `usize` (see
/// [`patch_ranges_bounded`]).
pub fn patch_ranges_ok(text: &str) -> (b: bool)
    ensures
        b == patch_ranges_bounded(text@),
{
    let v = chars_of(text);
    let n = v.len();
    let mut pos: usize = 0;
    assert(v@.skip(0) =~= v@);
    loop
        invariant
            n == v@.len(),
            pos <= n,
            patch_ranges_bounded(text@) == patch_ranges_bounded(v@.skip(pos as int)),
        decreases n - pos,
    {
        let line = chars_before(&v, pos, '\n');
        proof {
            crate::text::lemma_before_char(v@.skip(pos as int), '\n');
        }
        if !line_ranges_ok(&line) {
            return false;
        }
        if pos + line.len() < n {
            assert(v@.skip(pos as int).skip(line@.len() + 1int) =~= v@.skip(pos + line@.len() + 1int));
            pos = pos + line.len() + 1;
        } else {
            return true;
        }
    }
}

/// The text `diffy::apply` makes of `base` with the patch parsed from
/// `patch`, or `None` when a hunk does not fit.
pub uninterp spec fn patched(base: Seq<char>, patch: Seq<char>) -> Option<Seq<char>>;

/// `diffy::Patch::from_str` on `text`, then `diffy::apply` of that patch to
/// `base`: the outer error is the parse error, the inner result is what the
/// application gave. Whether the parse succeeds is named by
/// [`patch_parses`], the applied text by [`patched`]; the errors are opaque.
/// `diffy` checks that hunks come in order by adding each hunk's start and
/// length unchecked, so `requires` leaves out patches where that sum could
/// pass `usize::MAX` (see [`patch_ranges_bounded`]).
#[verifier::external_body]
fn parse_and_apply(base: &str, text: &str) -> (r: Result<Result<String, ApplyError>, ParsePatchError>)
    requires
        patch_ranges_bounded(text@),
    ensures
        (r is Ok) == patch_parses(text@),
        r matches Ok(a) ==> (a is Ok) == (patched(base@, text@) is Some),
        r matches Ok(Ok(t)) ==> t@ == patched(base@, text@)->Some_0,
{
    match Patch::from_str(text) {
        Ok(p) => Ok(diffy::apply(base, &p)),
        Err(e) => Err(e),
    }
}

/// The text of a patch that does not parse (its `Display`).
#[verifier::external_body]
fn parse_error_text(e: &ParsePatchError) -> (s: String) {
    e.to_string()
}

/// The text of a hunk that does not apply (its `Display`).
#[verifier::external_body]
fn apply_error_text(e: &ApplyError) -> (s: String) {
    e.to_string()
}

/// The error for a patch with a hunk range that ends past `usize::MAX`.
pub open spec fn long_range_error() -> Seq<char> {
    "Failed to parse patch: hunk range too large"@
}

/// Applies the unified diff `patch` to `original`, the content of the file
/// `path`: the patched text, or the reason it failed, `Failed to parse
/// patch: ...` for a patch `diffy` cannot read and `Failed to apply patch to
/// '<path>': ...` for one that does not fit. A patch with a hunk range whose
/// end passes `usize::MAX` is refused before `diffy` reads it.
pub fn patch_content(original: &str, patch: &str, path: &str) -> (r: Result<String, String>)
    ensures
        !patch_ranges_bounded(patch@) ==> (r matches Err(e) && e@ == long_range_error()),
        patch_ranges_bounded(patch@) && !patch_parses(patch@) ==> (r matches Err(e) && has_prefix(e@, "Failed to parse patch: "@)),
        patch_ranges_bounded(patch@) && patch_parses(patch@) ==> match patched(original@, patch@) {
            Some(t) => r matches Ok(x) && x@ == t,
            None => r matches Err(e) && has_prefix(e@, "Failed to apply patch to '"@ + path@ + "': "@),
        },
{
    if !patch_ranges_ok(patch) {
        return Err(String::from_str("Failed to parse patch: hunk range too large"));
    }
    match parse_and_apply(original, patch) {
        Err(e) => {
            let t = parse_error_text(&e);
            let m = cat2("Failed to parse patch: ", t.as_str());
            assert(m@.subrange(0, "Failed to parse patch: "@.len() as int) =~= "Failed to parse patch: "@);
            Err(m)
        },
        Ok(Ok(text)) => Ok(text),
        Ok(Err(e)) => {
            let t = apply_error_text(&e);
            let m = cat4("Failed to apply patch to '", path, "': ", t.as_str());
            let ghost pre = "Failed to apply patch to '"@ + path@ + "': "@;
            assert(m@.subrange(0, pre.len() as int) =~= pre);
            Err(m)
        },
    }
}

// --- Requests of the file system server ---

/// A file system operation the server asks the caller to carry out.
pub enum FsOp {
    ListDirectory { path: String },
    ReadFile { path: String, start: Option<usize>, end: Option<usize> },
    WriteFile { path: String, content: String },
    /// Read `path`, apply the diff `patch` with [`patch_content`], write it back.
    ApplyPatch { path: String, patch: String },
    CreateDirectory { path: String, parents: bool },
    DeleteFile { path: String },
    DeleteDirectory { path: String, recursive: bool },
    Rename { from: String, to: String },
    Metadata { path: String },
    CurrentDirectory,
    HomeDirectory,
}

/// The mathematical form of an [`FsOp`].
pub enum FsOpView {
    ListDirectory(Seq<char>),
    ReadFile(Seq<char>, Option<usize>, Option<usize>),
    WriteFile(Seq<char>, Seq<char>),
    ApplyPatch(Seq<char>, Seq<char>),
    CreateDirectory(Seq<char>, bool),
    DeleteFile(Seq<char>),
    DeleteDirectory(Seq<char>, bool),
    Rename(Seq<char>, Seq<char>),
    Metadata(Seq<char>),
    CurrentDirectory,
    HomeDirectory,
}

impl View for FsOp {
    type V = FsOpView;

    open spec fn view(&self) -> FsOpView {
        match self {
            FsOp::ListDirectory { path } => FsOpView::ListDirectory(path@),
            FsOp::ReadFile { path, start, end } => FsOpView::ReadFile(path@, *start, *end),
            FsOp::WriteFile { path, content } => FsOpView::WriteFile(path@, content@),
            FsOp::ApplyPatch { path, patch } => FsOpView::ApplyPatch(path@, patch@),
            FsOp::CreateDirectory { path, parents } => FsOpView::CreateDirectory(path@, *parents),
            FsOp::DeleteFile { path } => FsOpView::DeleteFile(path@),
            FsOp::DeleteDirectory { path, recursive } => FsOpView::DeleteDirectory(path@, *recursive),
            FsOp::Rename { from, to } => FsOpView::Rename(from@, to@),
            FsOp::Metadata { path } => FsOpView::Metadata(path@),
            FsOp::CurrentDirectory => FsOpView::CurrentDirectory,
            FsOp::HomeDirectory => FsOpView::HomeDirectory,
        }
    }
}

/// What the server does after a request.
pub enum FsStep {
    Reply(Response),
    /// Carry out the operation and answer `id` with the matching reply
    /// function of this module.
    Run(JsonValue, FsOp),
    Exit,
}

/// The mathematical form of an [`FsStep`], its id aside.
pub enum FsStepSpec {
    Reply(Reply),
    Run(FsOpView),
    Exit,
}

/// `s` is the step `spec`, answering `id`.
pub open spec fn fs_step_is(s: FsStep, id: Json, spec: FsStepSpec) -> bool {
    match spec {
        FsStepSpec::Reply(r) => s matches FsStep::Reply(resp) && replies(resp, id, r),
        FsStepSpec::Run(op) => s matches FsStep::Run(i, o) && i@ == id && o@ == op,
        FsStepSpec::Exit => s is Exit,
    }
}

/// An argument that is missing or empty.
pub open spec fn missing_arg(name: Seq<char>) -> FsStepSpec {
    FsStepSpec::Reply(Reply::Error(-32602i64, "Missing or empty '"@ + name + "' parameter"@))
}

/// A line number argument.
pub open spec fn line_arg(args: Json, key: Seq<char>) -> Option<usize> {
    match json_get(args, key) {
        Some(v) => match json_as_u64(v) {
            Some(n) => Some(n as usize),
            None => None,
        },
        None => None,
    }
}

/// A flag argument, false when missing.
pub open spec fn flag_arg(args: Json, key: Seq<char>) -> bool {
    match json_get(args, key) {
        Some(v) => json_as_bool(v) == Some(true),
        None => false,
    }
}

/// What a call of the tool `tool` with `args` comes to.
pub open spec fn fs_tool_step(tool: Seq<char>, args: Json) -> FsStepSpec {
    let path = arg_or_empty(args, "path"@);
    if tool == "list_directory"@ {
        FsStepSpec::Run(FsOpView::ListDirectory(match get_str(args, "path"@) {
            Some(p) => p,
            None => "."@,
        }))
    } else if tool == "read_file"@ {
        if path.len() == 0 {
            missing_arg("path"@)
        } else {
            FsStepSpec::Run(FsOpView::ReadFile(path, line_arg(args, "start_line"@), line_arg(args, "end_line"@)))
        }
    } else if tool == "write_file"@ {
        if path.len() == 0 {
            missing_arg("path"@)
        } else {
            FsStepSpec::Run(FsOpView::WriteFile(path, arg_or_empty(args, "content"@)))
        }
    } else if tool == "apply_patch"@ {
        if path.len() == 0 {
            missing_arg("path"@)
        } else if arg_or_empty(args, "patch_content"@).len() == 0 {
            missing_arg("patch_content"@)
        } else {
            FsStepSpec::Run(FsOpView::ApplyPatch(path, arg_or_empty(args, "patch_content"@)))
        }
    } else if tool == "create_directory"@ {
        if path.len() == 0 {
            missing_arg("path"@)
        } else {
            FsStepSpec::Run(FsOpView::CreateDirectory(path, flag_arg(args, "create_parents"@)))
        }
    } else if tool == "delete_file"@ {
        if path.len() == 0 {
            missing_arg("path"@)
        } else {
            FsStepSpec::Run(FsOpView::DeleteFile(path))
        }
    } else if tool == "delete_directory"@ {
        if path.len() == 0 {
            missing_arg("path"@)
        } else {
            FsStepSpec::Run(FsOpView::DeleteDirectory(path, flag_arg(args, "recursive"@)))
        }
    } else if tool == "rename"@ {
        let from = arg_or_empty(args, "from_path"@);
        let to = arg_or_empty(args, "to_path"@);
        if from.len() == 0 {
            missing_arg("from_path"@)
        } else if to.len() == 0 {
            missing_arg("to_path"@)
        } else {
            FsStepSpec::Run(FsOpView::Rename(from, to))
        }
    } else if tool == "get_metadata"@ {
        if path.len() == 0 {
            missing_arg("path"@)
        } else {
            FsStepSpec::Run(FsOpView::Metadata(path))
        }
    } else {
        FsStepSpec::Reply(Reply::Error(-32601i64, "Unknown tool: "@ + tool))
    }
}

/// What a request for the resource `name` comes to.
pub open spec fn fs_resource_step(name: Seq<char>) -> FsStepSpec {
    if name == "current_directory"@ {
        FsStepSpec::Run(FsOpView::CurrentDirectory)
    } else if name == "home_directory"@ {
        FsStepSpec::Run(FsOpView::HomeDirectory)
    } else {
        FsStepSpec::Reply(Reply::Error(-32601i64, "Unknown resource: "@ + name))
    }
}

fn missing_reply(id: JsonValue, name: &str) -> (s: FsStep)
    ensures
        fs_step_is(s, id@, missing_arg(name@)),
{
    FsStep::Reply(error_response(id, -32602, cat3("Missing or empty '", name, "' parameter"), None))
}

fn line_arg_of(args: &JsonValue, key: &str) -> (r: Option<usize>)
    ensures
        r == line_arg(args@, key@),
{
    match args.get(key) {
        Some(v) => match v.as_u64() {
            Some(n) => Some(n as usize),
            None => None,
        },
        None => None,
    }
}

fn flag_arg_of(args: &JsonValue, key: &str) -> (r: bool)
    ensures
        r == flag_arg(args@, key@),
{
    match args.get(key) {
        Some(v) => match v.as_bool() {
            Some(b) => b,
            None => false,
        },
        None => false,
    }
}

/// The call of the tool `name` with `args` (see [`fs_tool_step`]).
pub fn fs_tool(id: JsonValue, name: &str, args: &JsonValue) -> (s: FsStep)
    ensures
        fs_step_is(s, id@, fs_tool_step(name@, args@)),
{
    proof {
        reveal_strlit("list_directory");
        reveal_strlit("read_file");
        reveal_strlit("write_file");
        reveal_strlit("apply_patch");
        reveal_strlit("create_directory");
        reveal_strlit("delete_file");
        reveal_strlit("delete_directory");
        reveal_strlit("rename");
        reveal_strlit("get_metadata");
        reveal_strlit(".");
        assert("delete_file"@[7] != "delete_directory"@[7]);
    }
    let path = arg_text(args, "path");
    let empty = path.as_str().unicode_len() == 0;
    if str_eq(name, "list_directory") {
        let p = match arg_str(args, "path") {
            Some(p) => p,
            None => String::from_str("."),
        };
        FsStep::Run(id, FsOp::ListDirectory { path: p })
    } else if str_eq(name, "read_file") {
        if empty {
            return missing_reply(id, "path");
        }
        FsStep::Run(id, FsOp::ReadFile { path, start: line_arg_of(args, "start_line"), end: line_arg_of(args, "end_line") })
    } else if str_eq(name, "write_file") {
        if empty {
            return missing_reply(id, "path");
        }
        FsStep::Run(id, FsOp::WriteFile { path, content: arg_text(args, "content") })
    } else if str_eq(name, "apply_patch") {
        if empty {
            return missing_reply(id, "path");
        }
        let patch = arg_text(args, "patch_content");
        if patch.as_str().unicode_len() == 0 {
            return missing_reply(id, "patch_content");
        }
        FsStep::Run(id, FsOp::ApplyPatch { path, patch })
    } else if str_eq(name, "create_directory") {
        if empty {
            return missing_reply(id, "path");
        }
        FsStep::Run(id, FsOp::CreateDirectory { path, parents: flag_arg_of(args, "create_parents") })
    } else if str_eq(name, "delete_file") {
        if empty {
            return missing_reply(id, "path");
        }
        FsStep::Run(id, FsOp::DeleteFile { path })
    } else if str_eq(name, "delete_directory") {
        if empty {
            return missing_reply(id, "path");
        }
        FsStep::Run(id, FsOp::DeleteDirectory { path, recursive: flag_arg_of(args, "recursive") })
    } else if str_eq(name, "rename") {
        let from = arg_text(args, "from_path");
        let to = arg_text(args, "to_path");
        if from.as_str().unicode_len() == 0 {
            return missing_reply(id, "from_path");
        }
        if to.as_str().unicode_len() == 0 {
            return missing_reply(id, "to_path");
        }
        FsStep::Run(id, FsOp::Rename { from, to })
    } else if str_eq(name, "get_metadata") {
        if empty {
            return missing_reply(id, "path");
        }
        FsStep::Run(id, FsOp::Metadata { path })
    } else {
        FsStep::Reply(error_response(id, -32601, cat2("Unknown tool: ", name), None))
    }
}

/// A schema property (see [`property_json`]).
fn prop(ty: &str, description: &str) -> (r: JsonValue)
    ensures
        r@ == property_json(ty@, description@),
{
    let m = vec![member("type", json_str(ty)), member("description", json_str(description))];
    assert(members_view(m@) =~= seq![("type"@, Json::Str(ty@)), ("description"@, Json::Str(description@))]);
    json_object(m)
}

/// A flag property that defaults to false.
pub open spec fn flag_property_json(description: Seq<char>) -> Json {
    Json::Object(
        seq![("type"@, Json::Str("boolean"@)), ("description"@, Json::Str(description)), ("default"@, Json::Bool(false))],
    )
}

/// A flag property that defaults to false (see [`flag_property_json`]).
fn flag_prop(description: &str) -> (r: JsonValue)
    ensures
        r@ == flag_property_json(description@),
{
    let m = vec![
        member("type", json_str("boolean")),
        member("description", json_str(description)),
        member("default", JsonValue::Bool(false)),
    ];
    assert(members_view(m@) =~= seq![
        ("type"@, Json::Str("boolean"@)),
        ("description"@, Json::Str(description@)),
        ("default"@, Json::Bool(false)),
    ]);
    json_object(m)
}

/// A line number property, counted from 1.
pub open spec fn line_property_json(description: Seq<char>) -> Json {
    Json::Object(
        seq![("type"@, Json::Str("integer"@)), ("description"@, Json::Str(description)), ("minimum"@, Json::Number(dec(1)))],
    )
}

/// A line number property, counted from 1 (see [`line_property_json`]).
fn line_prop(description: &str) -> (r: JsonValue)
    ensures
        r@ == line_property_json(description@),
{
    let m = vec![
        member("type", json_str("integer")),
        member("description", json_str(description)),
        member("minimum", json_u64(1)),
    ];
    assert(members_view(m@) =~= seq![
        ("type"@, Json::Str("integer"@)),
        ("description"@, Json::Str(description@)),
        ("minimum"@, Json::Number(dec(1))),
    ]);
    json_object(m)
}

/// An object schema with the properties `props`, requiring the names in
/// `required`.
pub open spec fn object_schema_json(props: Seq<(Seq<char>, Json)>, required: Seq<Seq<char>>) -> Json {
    Json::Object(
        seq![
            ("type"@, Json::Str("object"@)),
            ("properties"@, Json::Object(props)),
            ("required"@, Json::Array(required.map_values(|s: Seq<char>| Json::Str(s)))),
        ],
    )
}

/// An object schema (see [`object_schema_json`]).
fn object_schema(props: Vec<(String, JsonValue)>, required: Vec<&str>) -> (r: JsonValue)
    ensures
        r@ == object_schema_json(members_view(props@), required@.map_values(|s: &str| s@)),
{
    let mut req: Vec<JsonValue> = Vec::new();
    let mut i: usize = 0;
    while i < required.len()
        invariant
            i <= required@.len(),
            req@.len() == i,
            forall|k: int| 0 <= k < i ==> (#[trigger] req@[k])@ == Json::Str(required@[k]@),
        decreases required.len() - i,
    {
        req.push(json_str(required[i]));
        i = i + 1;
    }
    proof {
        crate::json::lemma_array_view(req);
        assert(crate::json::items_view(req@) =~= required@.map_values(|s: &str| s@).map_values(|s: Seq<char>| Json::Str(s)));
    }
    let props_j = json_object(props);
    let m = vec![member("type", json_str("object")), member("properties", props_j), member("required", JsonValue::Array(req))];
    assert(members_view(m@) =~= seq![
        ("type"@, Json::Str("object"@)),
        ("properties"@, Json::Object(members_view(props@))),
        ("required"@, Json::Array(required@.map_values(|s: &str| s@).map_values(|s: Seq<char>| Json::Str(s)))),
    ]);
    json_object(m)
}

fn fs_tool_spec(name: &str, description: &str, schema: JsonValue) -> (r: ToolSpec)
    ensures
        tool_view(r) == (name@, description@, schema@),
{
    ToolSpec { name: String::from_str(name), description: String::from_str(description), schema }
}

/// The names of the file system server's tools.
pub open spec fn fs_tool_names() -> Seq<Seq<char>> {
    seq![
        "list_directory"@,
        "read_file"@,
        "write_file"@,
        "apply_patch"@,
        "create_directory"@,
        "delete_file"@,
        "delete_directory"@,
        "rename"@,
        "get_metadata"@,
    ]
}

/// The tools of the file system server: names, descriptions and schemas.
pub open spec fn fs_tool_views() -> Seq<(Seq<char>, Seq<char>, Json)> {
    seq![
        ("list_directory"@, "Lists contents of a directory."@, object_schema_json(seq![("path"@, property_json("string"@, "Path to the directory to list."@)), ("recursive"@, flag_property_json("Whether to list subdirectories recursively."@))], seq!["path"@])),
        ("read_file"@, "Reads content of a file, optionally a specific range of lines."@, object_schema_json(seq![("path"@, property_json("string"@, "Path to the file to read."@)), ("start_line"@, line_property_json("The 1-indexed line number to start reading from (inclusive)."@)), ("end_line"@, line_property_json("The 1-indexed line number to end reading at (inclusive)."@))], seq!["path"@])),
        ("write_file"@, "Writes content to a file, creating it if it doesn't exist or overwriting it if it does."@, object_schema_json(seq![("path"@, property_json("string"@, "Path to the file to write."@)), ("content"@, property_json("string"@, "The content to write to the file."@))], seq!["path"@, "content"@])),
        ("apply_patch"@, "Applies a unified diff patch to a file."@, object_schema_json(seq![("path"@, property_json("string"@, "Path to the file to patch."@)), ("patch_content"@, property_json("string"@, "The unified diff patch content."@))], seq!["path"@, "patch_content"@])),
        ("create_directory"@, "Creates a new directory."@, object_schema_json(seq![("path"@, property_json("string"@, "Path to the directory to create."@)), ("create_parents"@, flag_property_json("Whether to create parent directories if they don't exist."@))], seq!["path"@])),
        ("delete_file"@, "Deletes a file."@, object_schema_json(seq![("path"@, property_json("string"@, "Path to the file to delete."@))], seq!["path"@])),
        ("delete_directory"@, "Deletes a directory."@, object_schema_json(seq![("path"@, property_json("string"@, "Path to the directory to delete."@)), ("recursive"@, flag_property_json("Whether to delete recursively if the directory is not empty."@))], seq!["path"@])),
        ("rename"@, "Renames or moves a file or directory."@, object_schema_json(seq![("from_path"@, property_json("string"@, "The original path."@)), ("to_path"@, property_json("string"@, "The new path."@))], seq!["from_path"@, "to_path"@])),
        ("get_metadata"@, "Gets metadata for a file or directory."@, object_schema_json(seq![("path"@, property_json("string"@, "Path to the file or directory."@))], seq!["path"@])),
    ]
}

/// The tools of the file system server.
pub fn fs_tools() -> (r: Vec<ToolSpec>)
    ensures
        tool_names(r@) == fs_tool_names(),
        tool_views(r@) == fs_tool_views(),
{
    let ghost views = fs_tool_views();
    let m0 = vec![member("path", prop("string", "Path to the directory to list.")), member("recursive", flag_prop("Whether to list subdirectories recursively."))];
    let q0 = vec!["path"];
    assert(members_view(m0@) =~~= views[0].2->Object_0[1].1->Object_0);
    assert(q0@.map_values(|s: &str| s@) =~= seq!["path"@]);
    let t0 = fs_tool_spec("list_directory", "Lists contents of a directory.", object_schema(m0, q0));
    assert(tool_view(t0) =~~= views[0]);
    let m1 = vec![member("path", prop("string", "Path to the file to read.")), member("start_line", line_prop("The 1-indexed line number to start reading from (inclusive).")), member("end_line", line_prop("The 1-indexed line number to end reading at (inclusive)."))];
    let q1 = vec!["path"];
    assert(members_view(m1@) =~~= views[1].2->Object_0[1].1->Object_0);
    assert(q1@.map_values(|s: &str| s@) =~= seq!["path"@]);
    let t1 = fs_tool_spec("read_file", "Reads content of a file, optionally a specific range of lines.", object_schema(m1, q1));
    assert(tool_view(t1) =~~= views[1]);
    let m2 = vec![member("path", prop("string", "Path to the file to write.")), member("content", prop("string", "The content to write to the file."))];
    let q2 = vec!["path", "content"];
    assert(members_view(m2@) =~~= views[2].2->Object_0[1].1->Object_0);
    assert(q2@.map_values(|s: &str| s@) =~= seq!["path"@, "content"@]);
    let t2 = fs_tool_spec("write_file", "Writes content to a file, creating it if it doesn't exist or overwriting it if it does.", object_schema(m2, q2));
    assert(tool_view(t2) =~~= views[2]);
    let m3 = vec![member("path", prop("string", "Path to the file to patch.")), member("patch_content", prop("string", "The unified diff patch content."))];
    let q3 = vec!["path", "patch_content"];
    assert(members_view(m3@) =~~= views[3].2->Object_0[1].1->Object_0);
    assert(q3@.map_values(|s: &str| s@) =~= seq!["path"@, "patch_content"@]);
    let t3 = fs_tool_spec("apply_patch", "Applies a unified diff patch to a file.", object_schema(m3, q3));
    assert(tool_view(t3) =~~= views[3]);
    let m4 = vec![member("path", prop("string", "Path to the directory to create.")), member("create_parents", flag_prop("Whether to create parent directories if they don't exist."))];
    let q4 = vec!["path"];
    assert(members_view(m4@) =~~= views[4].2->Object_0[1].1->Object_0);
    assert(q4@.map_values(|s: &str| s@) =~= seq!["path"@]);
    let t4 = fs_tool_spec("create_directory", "Creates a new directory.", object_schema(m4, q4));
    assert(tool_view(t4) =~~= views[4]);
    let m5 = vec![member("path", prop("string", "Path to the file to delete."))];
    let q5 = vec!["path"];
    assert(members_view(m5@) =~~= views[5].2->Object_0[1].1->Object_0);
    assert(q5@.map_values(|s: &str| s@) =~= seq!["path"@]);
    let t5 = fs_tool_spec("delete_file", "Deletes a file.", object_schema(m5, q5));
    assert(tool_view(t5) =~~= views[5]);
    let m6 = vec![member("path", prop("string", "Path to the directory to delete.")), member("recursive", flag_prop("Whether to delete recursively if the directory is not empty."))];
    let q6 = vec!["path"];
    assert(members_view(m6@) =~~= views[6].2->Object_0[1].1->Object_0);
    assert(q6@.map_values(|s: &str| s@) =~= seq!["path"@]);
    let t6 = fs_tool_spec("delete_directory", "Deletes a directory.", object_schema(m6, q6));
    assert(tool_view(t6) =~~= views[6]);
    let m7 = vec![member("from_path", prop("string", "The original path.")), member("to_path", prop("string", "The new path."))];
    let q7 = vec!["from_path", "to_path"];
    assert(members_view(m7@) =~~= views[7].2->Object_0[1].1->Object_0);
    assert(q7@.map_values(|s: &str| s@) =~= seq!["from_path"@, "to_path"@]);
    let t7 = fs_tool_spec("rename", "Renames or moves a file or directory.", object_schema(m7, q7));
    assert(tool_view(t7) =~~= views[7]);
    let m8 = vec![member("path", prop("string", "Path to the file or directory."))];
    let q8 = vec!["path"];
    assert(members_view(m8@) =~~= views[8].2->Object_0[1].1->Object_0);
    assert(q8@.map_values(|s: &str| s@) =~= seq!["path"@]);
    let t8 = fs_tool_spec("get_metadata", "Gets metadata for a file or directory.", object_schema(m8, q8));
    assert(tool_view(t8) =~~= views[8]);
    let r = vec![t0, t1, t2, t3, t4, t5, t6, t7, t8];
    assert(tool_views(r@) =~~= views);
    assert(tool_names(r@) =~= fs_tool_names());
    r
}

/// The resources of the file system server.
pub fn fs_resources() -> (r: Vec<ResourceSpec>)
    ensures
        resource_views(r@) == fs_resource_views(),
{
    let r = vec![
        ResourceSpec {
            name: String::from_str("current_directory"),
            description: String::from_str("Gets the current working directory"),
        },
        ResourceSpec { name: String::from_str("home_directory"), description: String::from_str("Gets the user's home directory") },
    ];
    assert(resource_views(r@) =~= fs_resource_views());
    r
}

/// The resources of the file system server: names and descriptions.
pub open spec fn fs_resource_views() -> Seq<(Seq<char>, Seq<char>)> {
    seq![
        ("current_directory"@, "Gets the current working directory"@),
        ("home_directory"@, "Gets the user's home directory"@),
    ]
}

/// What the file system server does with `request`.
pub fn handle_fs_request(request: &Request) -> (s: FsStep)
    ensures
        request.method@ == "initialize"@ ==> (s matches FsStep::Reply(r) && exists|
            tools: Seq<ToolSpec>,
            resources: Seq<ResourceSpec>,
        |
            tool_views(tools) == fs_tool_views() && resource_views(resources) == fs_resource_views() && #[trigger] is_result(
                r,
                answer_id(request),
                initialize_result_json("filesystem-mcp"@, "1.0.0"@, tools, "parameters"@, resources, true),
            )),
        request.method@ == "mcp/tool/execute"@ ==> fs_step_is(
            s,
            answer_id(request),
            match request.params {
                None => FsStepSpec::Reply(Reply::Error(-32602i64, "Missing parameters for tool execution"@)),
                Some(p) => fs_tool_step(arg_or_empty(p@, "name"@), tool_args(p@)),
            },
        ),
        request.method@ == "resource/get"@ ==> fs_step_is(
            s,
            answer_id(request),
            match request.params {
                None => FsStepSpec::Reply(Reply::Error(-32602i64, "Missing parameters for resource get"@)),
                Some(p) => fs_resource_step(arg_or_empty(p@, "name"@)),
            },
        ),
        request.method@ == "shutdown"@ ==> fs_step_is(
            s,
            answer_id(request),
            FsStepSpec::Reply(Reply::Result(Json::Object(Seq::empty()))),
        ),
        request.method@ == "exit"@ ==> s is Exit,
        request.method@ != "initialize"@ && request.method@ != "mcp/tool/execute"@ && request.method@ != "resource/get"@
            && request.method@ != "shutdown"@ && request.method@ != "exit"@ ==> fs_step_is(
            s,
            answer_id(request),
            FsStepSpec::Reply(Reply::Error(-32601i64, "Method not found: "@ + request.method@)),
        ),
{
    proof {
        reveal_strlit("initialize");
        reveal_strlit("mcp/tool/execute");
        reveal_strlit("resource/get");
        reveal_strlit("shutdown");
        reveal_strlit("exit");
        reveal_strlit("current_directory");
        reveal_strlit("home_directory");
    }
    let id = request_id(request);
    let m = request.method.as_str();
    if str_eq(m, "initialize") {
        let tools = fs_tools();
        let resources = fs_resources();
        let result = initialize_result("filesystem-mcp", "1.0.0", &tools, "parameters", &resources, true);
        let r = result_response(id, result);
        assert(is_result(r, answer_id(request), initialize_result_json("filesystem-mcp"@, "1.0.0"@, tools@, "parameters"@, resources@, true)));
        FsStep::Reply(r)
    } else if str_eq(m, "mcp/tool/execute") {
        match &request.params {
            None => FsStep::Reply(error_response(id, -32602, String::from_str("Missing parameters for tool execution"), None)),
            Some(p) => {
                let name = arg_text(p, "name");
                let args = match p.get("args") {
                    Some(a) => a.copy(),
                    None => json_object(Vec::new()),
                };
                assert(args@ == tool_args(p@)) by {
                    assert(members_view(Seq::<(String, JsonValue)>::empty()) =~= Seq::<(Seq<char>, Json)>::empty());
                }
                fs_tool(id, name.as_str(), &args)
            },
        }
    } else if str_eq(m, "resource/get") {
        match &request.params {
            None => FsStep::Reply(error_response(id, -32602, String::from_str("Missing parameters for resource get"), None)),
            Some(p) => {
                let name = arg_text(p, "name");
                let n = name.as_str();
                if str_eq(n, "current_directory") {
                    FsStep::Run(id, FsOp::CurrentDirectory)
                } else if str_eq(n, "home_directory") {
                    FsStep::Run(id, FsOp::HomeDirectory)
                } else {
                    FsStep::Reply(error_response(id, -32601, cat2("Unknown resource: ", n), None))
                }
            },
        }
    } else if str_eq(m, "shutdown") {
        let r = result_response(id, json_object(Vec::new()));
        assert(members_view(Seq::<(String, JsonValue)>::empty()) =~= Seq::<(Seq<char>, Json)>::empty());
        FsStep::Reply(r)
    } else if str_eq(m, "exit") {
        FsStep::Exit
    } else {
        FsStep::Reply(error_response(id, -32601, cat2("Method not found: ", m), None))
    }
}

// --- Answers once an operation ran ---

/// An entry of a directory listing: its name, its path, and whether it is
/// a directory, a file and a link, or why that could not be read.
pub struct DirEntry {
    pub name: String,
    pub path: String,
    pub kind: Result<(bool, bool, bool), String>,
}

/// A directory entry as JSON.
pub open spec fn dir_entry_json(e: DirEntry) -> Json {
    match e.kind {
        Ok((d, f, l)) => Json::Object(
            seq![
                ("name"@, Json::Str(e.name@)),
                ("path"@, Json::Str(e.path@)),
                ("is_dir"@, Json::Bool(d)),
                ("is_file"@, Json::Bool(f)),
                ("is_symlink"@, Json::Bool(l)),
            ],
        ),
        Err(m) => Json::Object(
            seq![
                ("name"@, Json::Str(e.name@)),
                ("path"@, Json::Str(e.path@)),
                ("error"@, Json::Str("Could not get file type: "@ + m@)),
            ],
        ),
    }
}

/// `{"result": {...}}` with the members `ms`.
pub open spec fn wrapped(ms: Seq<(Seq<char>, Json)>) -> Json {
    Json::Object(seq![("result"@, Json::Object(ms))])
}

fn wrap(m: Vec<(String, JsonValue)>) -> (r: JsonValue)
    ensures
        r@ == wrapped(members_view(m@)),
{
    let inner = json_object(m);
    let top = vec![member("result", inner)];
    assert(members_view(top@) =~= seq![("result"@, inner@)]);
    json_object(top)
}

/// The answer to a listing of the directory `path`.
pub fn listing_reply(id: JsonValue, path: &str, entries: &Vec<DirEntry>) -> (r: Response)
    ensures
        is_result(
            r,
            id@,
            wrapped(seq![("path"@, Json::Str(path@)), ("files"@, Json::Array(entries@.map_values(|e: DirEntry| dir_entry_json(e))))]),
        ),
{
    let mut files: Vec<JsonValue> = Vec::new();
    let mut i: usize = 0;
    while i < entries.len()
        invariant
            i <= entries@.len(),
            files@.len() == i,
            forall|k: int| 0 <= k < i ==> (#[trigger] files@[k])@ == dir_entry_json(entries@[k]),
        decreases entries@.len() - i,
    {
        let e = &entries[i];
        let j = match &e.kind {
            Ok((d, f, l)) => {
                let m = vec![
                    member("name", json_str(e.name.as_str())),
                    member("path", json_str(e.path.as_str())),
                    member("is_dir", JsonValue::Bool(*d)),
                    member("is_file", JsonValue::Bool(*f)),
                    member("is_symlink", JsonValue::Bool(*l)),
                ];
                assert(members_view(m@) =~= seq![
                    ("name"@, Json::Str(e.name@)),
                    ("path"@, Json::Str(e.path@)),
                    ("is_dir"@, Json::Bool(*d)),
                    ("is_file"@, Json::Bool(*f)),
                    ("is_symlink"@, Json::Bool(*l)),
                ]);
                json_object(m)
            },
            Err(msg) => {
                let m = vec![
                    member("name", json_str(e.name.as_str())),
                    member("path", json_str(e.path.as_str())),
                    member("error", JsonValue::Str(cat2("Could not get file type: ", msg.as_str()))),
                ];
                assert(members_view(m@) =~= seq![
                    ("name"@, Json::Str(e.name@)),
                    ("path"@, Json::Str(e.path@)),
                    ("error"@, Json::Str("Could not get file type: "@ + msg@)),
                ]);
                json_object(m)
            },
        };
        files.push(j);
        i = i + 1;
    }
    proof {
        crate::json::lemma_array_view(files);
        assert(crate::json::items_view(files@) =~= entries@.map_values(|e: DirEntry| dir_entry_json(e)));
    }
    let m = vec![member("path", json_str(path)), member("files", JsonValue::Array(files))];
    assert(members_view(m@) =~= seq![("path"@, Json::Str(path@)), ("files"@, Json::Array(entries@.map_values(|e: DirEntry| dir_entry_json(e))))]);
    result_response(id, wrap(m))
}

/// The answer to a read of the file `path`.
pub fn content_reply(id: JsonValue, path: &str, content: &str) -> (r: Response)
    ensures
        is_result(r, id@, wrapped(seq![("path"@, Json::Str(path@)), ("content"@, Json::Str(content@))])),
{
    let m = vec![member("path", json_str(path)), member("content", json_str(content))];
    assert(members_view(m@) =~= seq![("path"@, Json::Str(path@)), ("content"@, Json::Str(content@))]);
    result_response(id, wrap(m))
}

/// The result of an operation that changes the file system.
pub open spec fn done_json(op: FsOpView) -> Json {
    match op {
        FsOpView::Rename(a, b) => wrapped(seq![("from_path"@, Json::Str(a)), ("to_path"@, Json::Str(b)), ("success"@, Json::Bool(true))]),
        FsOpView::ListDirectory(p) | FsOpView::ReadFile(p, _, _) | FsOpView::WriteFile(p, _) | FsOpView::ApplyPatch(p, _)
        | FsOpView::CreateDirectory(p, _) | FsOpView::DeleteFile(p) | FsOpView::DeleteDirectory(p, _) | FsOpView::Metadata(p) => wrapped(
            seq![("path"@, Json::Str(p)), ("success"@, Json::Bool(true))],
        ),
        FsOpView::CurrentDirectory | FsOpView::HomeDirectory => wrapped(seq![("success"@, Json::Bool(true))]),
    }
}

/// The answer once an operation that changes the file system succeeded.
pub fn done_reply(id: JsonValue, op: &FsOp) -> (r: Response)
    ensures
        is_result(r, id@, done_json(op@)),
{
    let m = match op {
        FsOp::Rename { from, to } => {
            let m = vec![member("from_path", json_str(from.as_str())), member("to_path", json_str(to.as_str())), member("success", JsonValue::Bool(true))];
            assert(members_view(m@) =~= seq![("from_path"@, Json::Str(from@)), ("to_path"@, Json::Str(to@)), ("success"@, Json::Bool(true))]);
            m
        },
        FsOp::ListDirectory { path } | FsOp::ReadFile { path, .. } | FsOp::WriteFile { path, .. } | FsOp::ApplyPatch { path, .. }
        | FsOp::CreateDirectory { path, .. } | FsOp::DeleteFile { path } | FsOp::DeleteDirectory { path, .. } | FsOp::Metadata { path } => {
            let m = vec![member("path", json_str(path.as_str())), member("success", JsonValue::Bool(true))];
            assert(members_view(m@) =~= seq![("path"@, Json::Str(path@)), ("success"@, Json::Bool(true))]);
            m
        },
        FsOp::CurrentDirectory | FsOp::HomeDirectory => {
            let m = vec![member("success", JsonValue::Bool(true))];
            assert(members_view(m@) =~= seq![("success"@, Json::Bool(true))]);
            m
        },
    };
    result_response(id, wrap(m))
}

/// What the file system says of a path.
pub struct FileMeta {
    pub is_dir: bool,
    pub is_file: bool,
    pub is_symlink: bool,
    pub size: u64,
    /// The modification time in seconds since the epoch, when known.
    pub modified: Option<u64>,
}

/// The metadata of `path` as JSON.
pub open spec fn metadata_json(path: Seq<char>, m: FileMeta) -> Json {
    wrapped(
        seq![
            ("path"@, Json::Str(path)),
            ("is_dir"@, Json::Bool(m.is_dir)),
            ("is_file"@, Json::Bool(m.is_file)),
            ("is_symlink"@, Json::Bool(m.is_symlink)),
            ("size"@, Json::Number(dec(m.size as nat))),
            ("modified_timestamp_secs"@, match m.modified {
                Some(t) => Json::Number(dec(t as nat)),
                None => Json::Null,
            }),
        ],
    )
}

/// The answer with the metadata of `path`.
pub fn metadata_reply(id: JsonValue, path: &str, meta: &FileMeta) -> (r: Response)
    ensures
        is_result(r, id@, metadata_json(path@, *meta)),
{
    let modified = match meta.modified {
        Some(t) => json_u64(t),
        None => JsonValue::Null,
    };
    let m = vec![
        member("path", json_str(path)),
        member("is_dir", JsonValue::Bool(meta.is_dir)),
        member("is_file", JsonValue::Bool(meta.is_file)),
        member("is_symlink", JsonValue::Bool(meta.is_symlink)),
        member("size", json_u64(meta.size)),
        member("modified_timestamp_secs", modified),
    ];
    assert(members_view(m@) =~= seq![
        ("path"@, Json::Str(path@)),
        ("is_dir"@, Json::Bool(meta.is_dir)),
        ("is_file"@, Json::Bool(meta.is_file)),
        ("is_symlink"@, Json::Bool(meta.is_symlink)),
        ("size"@, Json::Number(dec(meta.size as nat))),
        ("modified_timestamp_secs"@, match meta.modified {
            Some(t) => Json::Number(dec(t as nat)),
            None => Json::Null,
        }),
    ]);
    result_response(id, wrap(m))
}

/// The answer with a directory: `{"path": path}`.
pub fn directory_reply(id: JsonValue, path: &str) -> (r: Response)
    ensures
        is_result(r, id@, Json::Object(seq![("path"@, Json::Str(path@))])),
{
    let m = vec![member("path", json_str(path))];
    assert(members_view(m@) =~= seq![("path"@, Json::Str(path@))]);
    result_response(id, json_object(m))
}

/// The message an operation that failed with `e` is answered with.
pub open spec fn fs_failure_text(op: FsOpView, e: Seq<char>) -> Seq<char> {
    match op {
        FsOpView::ListDirectory(p) => "Failed to list directory '"@ + p + "': "@ + e,
        FsOpView::ReadFile(p, _, _) => "Failed to read file '"@ + p + "': "@ + e,
        FsOpView::WriteFile(p, _) => "Failed to write file '"@ + p + "': "@ + e,
        FsOpView::ApplyPatch(p, _) => "Failed to apply patch to '"@ + p + "': "@ + e,
        FsOpView::CreateDirectory(p, _) => "Failed to create directory '"@ + p + "': "@ + e,
        FsOpView::DeleteFile(p) => "Failed to delete file '"@ + p + "': "@ + e,
        FsOpView::DeleteDirectory(p, _) => "Failed to delete directory '"@ + p + "': "@ + e,
        FsOpView::Rename(a, b) => "Failed to rename from '"@ + a + "' to '"@ + b + "': "@ + e,
        FsOpView::Metadata(p) => "Failed to get metadata for '"@ + p + "': "@ + e,
        FsOpView::CurrentDirectory => "Failed to get current directory: "@ + e,
        FsOpView::HomeDirectory => "Failed to get home directory"@,
    }
}

/// The answer to an operation that failed with `e` (ignored for the home
/// directory, whose lookup gives no reason).
pub fn fs_failure(id: JsonValue, op: &FsOp, e: &str) -> (r: Response)
    ensures
        is_error(r, id@, -32000i64, fs_failure_text(op@, e@)),
{
    let msg = match op {
        FsOp::ListDirectory { path } => cat4("Failed to list directory '", path.as_str(), "': ", e),
        FsOp::ReadFile { path, .. } => cat4("Failed to read file '", path.as_str(), "': ", e),
        FsOp::WriteFile { path, .. } => cat4("Failed to write file '", path.as_str(), "': ", e),
        FsOp::ApplyPatch { path, .. } => cat4("Failed to apply patch to '", path.as_str(), "': ", e),
        FsOp::CreateDirectory { path, .. } => cat4("Failed to create directory '", path.as_str(), "': ", e),
        FsOp::DeleteFile { path } => cat4("Failed to delete file '", path.as_str(), "': ", e),
        FsOp::DeleteDirectory { path, .. } => cat4("Failed to delete directory '", path.as_str(), "': ", e),
        FsOp::Rename { from, to } => {
            let mut m = cat4("Failed to rename from '", from.as_str(), "' to '", to.as_str());
            m.append("': ");
            m.append(e);
            m
        },
        FsOp::Metadata { path } => cat4("Failed to get metadata for '", path.as_str(), "': ", e),
        FsOp::CurrentDirectory => cat2("Failed to get current directory: ", e),
        FsOp::HomeDirectory => String::from_str("Failed to get home directory"),
    };
    error_response(id, -32000, msg, None)
}

/// The reason a range of lines could not be read, as the server reports it.
pub fn lines_error_text(e: &LinesError) -> (r: String)
    ensures
        r@ == match e {
            LinesError::BadRange => "start_line cannot be greater than end_line"@,
            LinesError::NotUtf8 => "stream did not contain valid UTF-8"@,
        },
{
    match e {
        LinesError::BadRange => String::from_str("start_line cannot be greater than end_line"),
        LinesError::NotUtf8 => String::from_str("stream did not contain valid UTF-8"),
    }
}

} // verus!
