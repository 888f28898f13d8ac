//! Conversation history: the messages of a session, where they are kept,
//! how long they are in tokens, the recent shell commands given as context,
//! and the summary that replaces a history grown too long.

use vstd::prelude::*;
use crate::json::{json_array, json_object, json_str, member, members_view, items_view, Json, JsonValue};
use crate::mcp::config::{join_path, join_path_exec};
use crate::text::{
    cat2, cat3, chars_of, char_is_alphanumeric, dec, has_infix, has_prefix, is_alnum, str_contains,
    str_eq, str_starts_with, string_of, trim, trim_str, u64_to_string, usize_to_string,
};

verus! {

/// Histories estimated above this many tokens are summarized.
pub const TOKEN_THRESHOLD: usize = 700000;

/// The characters counted as one token.
pub const CHARS_PER_TOKEN: usize = 4;

/// One message of a conversation.
pub struct ChatMessage {
    /// `user`, `assistant` or `system`.
    pub role: String,
    pub content: String,
    pub timestamp: u64,
}

/// The messages of a session.
pub struct ChatHistory {
    pub messages: Vec<ChatMessage>,
    pub session_id: String,
}

/// A character that may stay in a file name: alphanumeric, `-` or `_`.
pub open spec fn keeps(c: char) -> bool {
    is_alnum(c) || c == '-' || c == '_'
}

/// `s` with every character that may not stay in a file name replaced by `_`.
pub open spec fn sanitize_spec(s: Seq<char>) -> Seq<char> {
    s.map_values(|c: char| if keeps(c) { c } else { '_' })
}

/// `s` with every character that may not stay in a file name replaced by `_`.
pub fn sanitize_session_id(s: &str) -> (r: String)
    ensures
        r@ == sanitize_spec(s@),
{
    let v = chars_of(s);
    let mut out: Vec<char> = Vec::new();
    let mut i: usize = 0;
    while i < v.len()
        invariant
            v@ == s@,
            i <= v@.len(),
            out@.len() == i,
            forall|k: int| 0 <= k < i ==> #[trigger] out@[k] == (if keeps(v@[k]) { v@[k] } else { '_' }),
        decreases v@.len() - i,
    {
        let c = v[i];
        if char_is_alphanumeric(c) || c == '-' || c == '_' {
            out.push(c);
        } else {
            out.push('_');
        }
        i = i + 1;
    }
    assert(out@ =~= sanitize_spec(s@));
    string_of(out.as_slice())
}

/// The file that keeps the history of a session: `history_<id>.json` in
/// the configuration directory, the id sanitized.
pub open spec fn history_file_spec(config_dir: Seq<char>, session_id: Seq<char>) -> Seq<char> {
    join_path(config_dir, "history_"@ + sanitize_spec(session_id) + ".json"@)
}

/// The file that keeps the history of a session (see [`history_file_spec`]).
pub fn get_history_file_path(config_dir: &str, session_id: &str) -> (r: String)
    ensures
        r@ == history_file_spec(config_dir@, session_id@),
{
    let id = sanitize_session_id(session_id);
    let name = cat3("history_", id.as_str(), ".json");
    join_path_exec(config_dir, name.as_str())
}

/// An empty history of a session.
pub fn new_history(session_id: &str) -> (h: ChatHistory)
    ensures
        h.messages@.len() == 0,
        h.session_id@ == session_id@,
{
    ChatHistory { messages: Vec::new(), session_id: String::from_str(session_id) }
}

/// The id of the terminal session: the id the shell wrapper exported in
/// `GEMINI_SESSION_ID` when it is not blank once trimmed; else
/// `term_<pid>` of the terminal's shell, the parent of this process, which
/// stays the same for every command of that terminal; `session_<now>` when
/// neither is known.
pub open spec fn session_id_spec(exported: Option<Seq<char>>, shell_pid: Option<Seq<char>>, now: u64) -> Seq<char> {
    match exported {
        Some(e) if trim(e).len() > 0 => trim(e),
        _ => match shell_pid {
            Some(p) if trim(p).len() > 0 => "term_"@ + trim(p),
            _ => "session_"@ + dec(now as nat),
        },
    }
}

/// The session id (see [`session_id_spec`]): `exported` is the value of
/// `GEMINI_SESSION_ID`, `shell_pid` the process id of the parent shell.
pub fn generate_session_id(exported: Option<&str>, shell_pid: Option<&str>, now: u64) -> (r: String)
    ensures
        r@ == session_id_spec(
            match exported {
                Some(p) => Some(p@),
                None => None,
            },
            match shell_pid {
                Some(p) => Some(p@),
                None => None,
            },
            now,
        ),
{
    if let Some(e) = exported {
        let t = trim_str(e);
        if !t.as_str().is_empty() {
            return t;
        }
    }
    if let Some(p) = shell_pid {
        let t = trim_str(p);
        if !t.as_str().is_empty() {
            return cat2("term_", t.as_str());
        }
    }
    let n = u64_to_string(now);
    cat2("session_", n.as_str())
}

/// The line the shell wrapper picks up to keep the session id for the
/// commands that follow.
pub fn session_export_line(session_id: &str) -> (r: String)
    ensures
        r@ == "# export GEMINI_SESSION_ID=\""@ + session_id@ + "\""@,
{
    cat3("# export GEMINI_SESSION_ID=\"", session_id, "\"")
}

/// A command that the assistant itself ran, which the context leaves out.
pub open spec fn is_own_command(cmd: Seq<char>) -> bool {
    has_prefix(cmd, "gemini "@) || has_prefix(cmd, "./gemini "@) || has_infix(cmd, "gemini-cli-bin"@)
}

/// Whether `cmd` is one of the assistant's own commands.
pub fn own_command(cmd: &str) -> (b: bool)
    ensures
        b == is_own_command(cmd@),
{
    str_starts_with(cmd, "gemini ") || str_starts_with(cmd, "./gemini ") || str_contains(cmd, "gemini-cli-bin")
}

/// The recent commands in what `fc -ln` printed (`lines`, oldest first):
/// trimmed, blank ones dropped, newest first, the assistant's own commands
/// and `fc` itself left out, at most `count`.
pub open spec fn fc_commands_spec(lines: Seq<Seq<char>>, count: nat) -> Seq<Seq<char>> {
    let kept = lines.map_values(|l: Seq<char>| trim(l)).filter(|l: Seq<char>| l.len() > 0).reverse().filter(
        |c: Seq<char>| !is_own_command(c) && !has_infix(c, "fc -ln"@),
    );
    if kept.len() <= count {
        kept
    } else {
        kept.take(count as int)
    }
}

/// The recent commands in the lines of `fc -ln` (see [`fc_commands_spec`]).
pub fn fc_commands(lines: &Vec<String>, count: usize) -> (r: Vec<String>)
    ensures
        crate::text::strings_view(r@) == fc_commands_spec(crate::text::strings_view(lines@), count as nat),
{
    let ghost ls = crate::text::strings_view(lines@);
    let ghost trimmed = ls.map_values(|l: Seq<char>| trim(l)).filter(|l: Seq<char>| l.len() > 0);
    let mut nonblank: Vec<String> = Vec::new();
    let mut i: usize = 0;
    proof {
        reveal(Seq::filter);
    }
    assert(ls.map_values(|l: Seq<char>| trim(l)).take(0).filter(|l: Seq<char>| l.len() > 0) =~= Seq::<Seq<char>>::empty());
    while i < lines.len()
        invariant
            i <= lines@.len(),
            ls == crate::text::strings_view(lines@),
            crate::text::strings_view(nonblank@) == ls.map_values(|l: Seq<char>| trim(l)).take(i as int).filter(|l: Seq<char>| l.len() > 0),
        decreases lines@.len() - i,
    {
        let ghost pre = ls.map_values(|l: Seq<char>| trim(l)).take(i as int);
        assert(ls.map_values(|l: Seq<char>| trim(l)).take(i as int + 1) =~= pre.push(trim(lines@[i as int]@)));
        proof {
            pre.lemma_filter_push(trim(lines@[i as int]@), |l: Seq<char>| l.len() > 0);
        }
        let t = trim_str(lines[i].as_str());
        if !t.as_str().is_empty() {
            let ghost before = nonblank@;
            nonblank.push(t);
            assert(crate::text::strings_view(nonblank@) =~= crate::text::strings_view(before).push(trim(lines@[i as int]@)));
        }
        i = i + 1;
    }
    assert(ls.map_values(|l: Seq<char>| trim(l)).take(lines@.len() as int) =~= ls.map_values(|l: Seq<char>| trim(l)));
    let ghost rev = trimmed.reverse();
    let mut out: Vec<String> = Vec::new();
    let mut j: usize = nonblank.len();
    let ghost keep = |c: Seq<char>| !is_own_command(c) && !has_infix(c, "fc -ln"@);
    assert(rev.take(0).filter(keep) =~= Seq::<Seq<char>>::empty());
    while j > 0
        invariant
            j <= nonblank@.len(),
            crate::text::strings_view(nonblank@) == trimmed,
            rev == trimmed.reverse(),
            keep == (|c: Seq<char>| !is_own_command(c) && !has_infix(c, "fc -ln"@)),
            crate::text::strings_view(out@) == rev.take(nonblank@.len() - j).filter(keep),
        decreases j,
    {
        let k = nonblank.len() - j;
        let ghost pre = rev.take(k as int);
        assert(rev.take(k as int + 1) =~= pre.push(rev[k as int]));
        assert(rev[k as int] == nonblank@[j - 1]@);
        proof {
            pre.lemma_filter_push(rev[k as int], keep);
        }
        let c = nonblank[j - 1].as_str();
        if !own_command(c) && !str_contains(c, "fc -ln") {
            let ghost before = out@;
            out.push(String::from_str(c));
            assert(crate::text::strings_view(out@) =~= crate::text::strings_view(before).push(rev[k as int]));
        }
        j = j - 1;
    }
    assert(rev.take(nonblank@.len() as int) =~= rev);
    if out.len() > count {
        out.truncate(count);
    }
    out
}

/// The system prompt with the recent commands as context: the base prompt
/// alone when there are none, else the base, `Recent command history:`,
/// the numbered commands and a closing request.
pub open spec fn prompt_with_history_spec(base: Seq<char>, cmds: Seq<Seq<char>>) -> Seq<char> {
    if cmds.len() == 0 {
        base
    } else {
        base + "\n\nRecent command history:\n"@ + numbered_lines(cmds, 1) + "\nPlease consider this command history when providing assistance."@
    }
}

/// The commands numbered from `first`, one per line: `<n>. <command>`.
pub open spec fn numbered_lines(cmds: Seq<Seq<char>>, first: nat) -> Seq<char>
    decreases cmds.len(),
{
    if cmds.len() == 0 {
        Seq::empty()
    } else {
        dec(first) + ". "@ + cmds[0] + "\n"@ + numbered_lines(cmds.drop_first(), first + 1)
    }
}

/// The system prompt with the recent commands `recent` as context.
pub fn create_system_prompt_with_history(base: &str, recent: &Vec<String>) -> (r: String)
    ensures
        r@ == prompt_with_history_spec(base@, crate::text::strings_view(recent@)),
{
    if recent.len() == 0 {
        return String::from_str(base);
    }
    let ghost cmds = crate::text::strings_view(recent@);
    let mut prompt = String::from_str(base);
    prompt.append("\n\nRecent command history:\n");
    let ghost head = prompt@;
    let mut i: usize = 0;
    assert(cmds.skip(0) =~= cmds);
    while i < recent.len()
        invariant
            i <= recent@.len(),
            cmds == crate::text::strings_view(recent@),
            head + numbered_lines(cmds, 1) == prompt@ + numbered_lines(cmds.skip(i as int), i as nat + 1),
        decreases recent@.len() - i,
    {
        let ghost before = prompt@;
        let ghost rest = numbered_lines(cmds.skip(i as int + 1), i as nat + 2);
        assert(cmds.skip(i as int).drop_first() =~= cmds.skip(i as int + 1));
        assert(cmds.skip(i as int)[0] == recent@[i as int]@);
        let n = usize_to_string(i + 1);
        prompt.append(n.as_str());
        prompt.append(". ");
        prompt.append(recent[i].as_str());
        prompt.append("\n");
        let ghost line = dec(i as nat + 1) + ". "@ + recent@[i as int]@ + "\n"@;
        assert(cmds.skip(i as int).len() > 0);
        assert(numbered_lines(cmds.skip(i as int), i as nat + 1) == dec(i as nat + 1) + ". "@ + cmds.skip(i as int)[0] + "\n"@
            + numbered_lines(cmds.skip(i as int).drop_first(), (i as nat + 1) + 1));
        assert(numbered_lines(cmds.skip(i as int), i as nat + 1) == line + rest);
        assert(prompt@ =~= before + line);
        assert(before + (line + rest) =~= prompt@ + rest);
        i = i + 1;
    }
    assert(numbered_lines(cmds.skip(i as int), i as nat + 1) == Seq::<char>::empty()) by {
        assert(cmds.skip(i as int) =~= Seq::<Seq<char>>::empty());
    }
    assert(prompt@ + Seq::<char>::empty() =~= prompt@);
    prompt.append("\nPlease consider this command history when providing assistance.");
    prompt
}

/// The command of a line of a history file: in zsh's extended format
/// (`: <time>:<duration>;<command>`) what follows the first `;`, trimmed.
pub open spec fn history_line_command(line: Seq<char>, is_zsh: bool) -> Seq<char> {
    let t = trim(line);
    if is_zsh && t.contains(';') {
        trim(t.skip(first_index_of(t, ';') + 1))
    } else {
        t
    }
}

/// The index of the first `c` in `s` (its length when there is none).
pub open spec fn first_index_of(s: Seq<char>, c: char) -> int
    decreases s.len(),
{
    if s.len() == 0 || s[0] == c {
        0
    } else {
        1 + first_index_of(s.drop_first(), c)
    }
}

proof fn lemma_first_index_of(s: Seq<char>, c: char)
    ensures
        0 <= first_index_of(s, c) <= s.len(),
        forall|i: int| 0 <= i < first_index_of(s, c) ==> s[i] != c,
        s.contains(c) ==> first_index_of(s, c) < s.len() && s[first_index_of(s, c)] == c,
    decreases s.len(),
{
    if s.len() > 0 && s[0] != c {
        lemma_first_index_of(s.drop_first(), c);
        assert forall|i: int| 0 <= i < first_index_of(s, c) implies s[i] != c by {
            if i > 0 {
                assert(s[i] == s.drop_first()[i - 1]);
            }
        }
        if s.contains(c) {
            let j = choose|j: int| 0 <= j < s.len() && s[j] == c;
            assert(s.drop_first()[j - 1] == c);
            assert(s.drop_first().contains(c));
            assert(s[first_index_of(s, c)] == s.drop_first()[first_index_of(s.drop_first(), c)]);
        }
    }
}

/// The command of one line of a history file (see [`history_line_command`]).
pub fn line_command(line: &str, is_zsh: bool) -> (r: String)
    ensures
        r@ == history_line_command(line@, is_zsh),
{
    let t = trim_str(line);
    if !is_zsh {
        return t;
    }
    let v = chars_of(t.as_str());
    let mut i: usize = 0;
    while i < v.len() && v[i] != ';'
        invariant
            v@ == t@,
            i <= v@.len(),
            forall|k: int| 0 <= k < i ==> v@[k] != ';',
        decreases v@.len() - i,
    {
        i = i + 1;
    }
    proof {
        lemma_first_index_of(t@, ';');
    }
    if i == v.len() {
        assert(!t@.contains(';'));
        return t;
    }
    assert(t@.contains(';'));
    assert(first_index_of(t@, ';') == i) by {
        if first_index_of(t@, ';') < i {
            assert(v@[first_index_of(t@, ';')] == ';');
        }
    }
    let mut rest: Vec<char> = Vec::new();
    let mut k: usize = i + 1;
    while k < v.len()
        invariant
            i + 1 <= k <= v@.len(),
            rest@ =~= v@.subrange(i + 1, k as int),
        decreases v@.len() - k,
    {
        rest.push(v[k]);
        k = k + 1;
    }
    assert(rest@ =~= t@.skip(i + 1));
    let rs = string_of(rest.as_slice());
    trim_str(rs.as_str())
}

/// The recent commands read from a history file whose lines are `lines`
/// (oldest first): newest first, blank lines and the assistant's own
/// commands skipped, at most `count`.
pub open spec fn file_commands_spec(lines: Seq<Seq<char>>, is_zsh: bool, count: nat) -> Seq<Seq<char>> {
    let cmds = lines.reverse().filter(|l: Seq<char>| trim(l).len() > 0).map_values(
        |l: Seq<char>| history_line_command(l, is_zsh),
    ).filter(|c: Seq<char>| !is_own_command(c));
    if cmds.len() <= count {
        cmds
    } else {
        cmds.take(count as int)
    }
}

/// The first `c` of `p` followed by `c` and `rest`, where `p` holds no `c`,
/// is at the end of `p`.
proof fn lemma_first_index_after(p: Seq<char>, c: char, rest: Seq<char>)
    requires
        !p.contains(c),
    ensures
        first_index_of(p + seq![c] + rest, c) == p.len(),
    decreases p.len(),
{
    let s = p + seq![c] + rest;
    if p.len() > 0 {
        assert(s[0] == p[0]);
        assert(s.drop_first() =~= p.drop_first() + seq![c] + rest);
        assert(!p.drop_first().contains(c)) by {
            if p.drop_first().contains(c) {
                let i = choose|i: int| 0 <= i < p.drop_first().len() && p.drop_first()[i] == c;
                assert(p[i + 1] == c);
            }
        }
        lemma_first_index_after(p.drop_first(), c, rest);
    } else {
        assert(s[0] == c);
    }
}

/// The command of a history line: the trimmed line in bash; in zsh, when
/// the trimmed line is `meta;command` with no `;` in `meta`, the trimmed
/// text after that first `;`, and the trimmed line when it has no `;`.
pub proof fn lemma_history_line_command(line: Seq<char>, meta: Seq<char>, command: Seq<char>)
    ensures
        history_line_command(line, false) == trim(line),
        !trim(line).contains(';') ==> history_line_command(line, true) == trim(line),
        (trim(line) == meta + seq![';'] + command && !meta.contains(';')) ==> history_line_command(line, true)
            == trim(command),
{
    if trim(line) == meta + seq![';'] + command && !meta.contains(';') {
        lemma_first_index_after(meta, ';', command);
        let t = trim(line);
        assert(t[meta.len() as int] == ';');
        assert(t.contains(';'));
        assert(t.skip(meta.len() + 1int) =~= command);
    }
}

/// Line `j` of a history file gives a command that is kept: the line is
/// not blank and its command is not one of the assistant's own.
pub open spec fn line_kept(lines: Seq<Seq<char>>, is_zsh: bool, j: int) -> bool {
    &&& 0 <= j < lines.len()
    &&& trim(lines[j]).len() > 0
    &&& !is_own_command(history_line_command(lines[j], is_zsh))
}

/// The assistant's own commands never enter the system prompt: a line whose
/// command starts with `gemini ` or `./gemini `, or mentions
/// `gemini-cli-bin`, is not kept, and neither is a blank line.
pub proof fn lemma_own_commands_left_out(lines: Seq<Seq<char>>, is_zsh: bool, j: int)
    requires
        0 <= j < lines.len(),
    ensures
        ({
            let c = history_line_command(lines[j], is_zsh);
            (has_prefix(c, "gemini "@) || has_prefix(c, "./gemini "@) || has_infix(c, "gemini-cli-bin"@)
                || trim(lines[j]).len() == 0) ==> !line_kept(lines, is_zsh, j)
        }),
{
}

/// All the kept commands of a history file, newest first.
spec fn newest_commands(lines: Seq<Seq<char>>, is_zsh: bool) -> Seq<Seq<char>> {
    lines.reverse().filter(|l: Seq<char>| trim(l).len() > 0).map_values(
        |l: Seq<char>| history_line_command(l, is_zsh),
    ).filter(|c: Seq<char>| !is_own_command(c))
}

/// The newest commands of a file are those of its later lines, then that of
/// its first line when it is kept.
proof fn lemma_newest_commands_front(lines: Seq<Seq<char>>, is_zsh: bool)
    requires
        lines.len() > 0,
    ensures
        newest_commands(lines, is_zsh) == newest_commands(lines.drop_first(), is_zsh) + if line_kept(lines, is_zsh, 0) {
            seq![history_line_command(lines[0], is_zsh)]
        } else {
            Seq::empty()
        },
{
    let nb = |l: Seq<char>| trim(l).len() > 0;
    let cmd = |l: Seq<char>| history_line_command(l, is_zsh);
    let keep = |c: Seq<char>| !is_own_command(c);
    let rest = lines.drop_first();
    let x = lines[0];
    assert(lines.reverse() =~= rest.reverse().push(x));
    rest.reverse().lemma_filter_push(x, nb);
    let f = rest.reverse().filter(nb);
    if nb(x) {
        assert(f.push(x).map_values(cmd) =~= f.map_values(cmd).push(cmd(x)));
        f.map_values(cmd).lemma_filter_push(cmd(x), keep);
        if keep(cmd(x)) {
            assert(newest_commands(lines, is_zsh) =~= newest_commands(rest, is_zsh).push(cmd(x)));
        } else {
            assert(newest_commands(lines, is_zsh) =~= newest_commands(rest, is_zsh));
        }
    } else {
        assert(newest_commands(lines, is_zsh) =~= newest_commands(rest, is_zsh));
    }
}

/// The line each of the newest commands comes from: the lines are kept, in
/// falling order, and every kept line is among them.
proof fn lemma_newest_commands_lines(lines: Seq<Seq<char>>, is_zsh: bool) -> (idx: Seq<int>)
    ensures
        idx.len() == newest_commands(lines, is_zsh).len(),
        forall|k: int| 0 <= k < idx.len() ==> line_kept(lines, is_zsh, #[trigger] idx[k])
            && newest_commands(lines, is_zsh)[k] == history_line_command(lines[idx[k]], is_zsh),
        forall|k1: int, k2: int| 0 <= k1 < k2 < idx.len() ==> #[trigger] idx[k1] > #[trigger] idx[k2],
        forall|j: int| line_kept(lines, is_zsh, j) ==> #[trigger] idx.contains(j),
    decreases lines.len(),
{
    if lines.len() == 0 {
        let idx = Seq::<int>::empty();
        assert(lines.reverse() =~= Seq::<Seq<char>>::empty());
        assert(newest_commands(lines, is_zsh) =~= Seq::<Seq<char>>::empty()) by {
            reveal(Seq::filter);
        }
        idx
    } else {
        let rest = lines.drop_first();
        let ir = lemma_newest_commands_lines(rest, is_zsh);
        lemma_newest_commands_front(lines, is_zsh);
        let shifted = ir.map_values(|j: int| j + 1);
        let idx = if line_kept(lines, is_zsh, 0) {
            shifted.push(0)
        } else {
            shifted
        };
        let n = newest_commands(lines, is_zsh);
        let nr = newest_commands(rest, is_zsh);
        assert forall|k: int| 0 <= k < idx.len() implies line_kept(lines, is_zsh, #[trigger] idx[k])
            && n[k] == history_line_command(lines[idx[k]], is_zsh) by {
            if k < ir.len() {
                assert(idx[k] == ir[k] + 1);
                assert(line_kept(rest, is_zsh, ir[k]));
                assert(lines[ir[k] + 1] == rest[ir[k]]);
                assert(n[k] == nr[k]);
            }
        }
        assert forall|k1: int, k2: int| 0 <= k1 < k2 < idx.len() implies #[trigger] idx[k1] > #[trigger] idx[k2] by {
            if k2 < ir.len() {
                assert(ir[k1] > ir[k2]);
            } else {
                assert(line_kept(rest, is_zsh, ir[k1]));
            }
        }
        assert forall|j: int| line_kept(lines, is_zsh, j) implies #[trigger] idx.contains(j) by {
            if j == 0 {
                assert(idx[idx.len() - 1] == 0);
            } else {
                assert(rest[j - 1] == lines[j]);
                assert(line_kept(rest, is_zsh, j - 1));
                assert(ir.contains(j - 1));
                let k = choose|k: int| 0 <= k < ir.len() && ir[k] == j - 1;
                assert(idx[k] == j);
            }
        }
        idx
    }
}

/// The commands read from a history file are its newest kept commands,
/// newest first: each comes from a kept line (not blank, not the
/// assistant's own), each from a later line than the next, there are at most
/// `count`, and no kept line is passed over: every kept line later than the
/// last one used is used, and when fewer than `count` were found all kept
/// lines are used.
pub proof fn lemma_file_commands_newest_first(lines: Seq<Seq<char>>, is_zsh: bool, count: nat)
    ensures
        ({
            let r = file_commands_spec(lines, is_zsh, count);
            &&& r.len() <= count
            &&& exists|idx: Seq<int>|
                #![trigger idx.len()]
                idx.len() == r.len()
                && (forall|k: int| 0 <= k < r.len() ==> line_kept(lines, is_zsh, #[trigger] idx[k])
                    && r[k] == history_line_command(lines[idx[k]], is_zsh))
                && (forall|k1: int, k2: int| 0 <= k1 < k2 < r.len() ==> #[trigger] idx[k1] > #[trigger] idx[k2])
                && (forall|j: int|
                    line_kept(lines, is_zsh, j) && (r.len() < count || (r.len() > 0 && j > idx[r.len() - 1]))
                        ==> #[trigger] idx.contains(j))
        }),
{
    let r = file_commands_spec(lines, is_zsh, count);
    let n = newest_commands(lines, is_zsh);
    assert(r == if n.len() <= count { n } else { n.take(count as int) });
    let full = lemma_newest_commands_lines(lines, is_zsh);
    let idx = full.take(r.len() as int);
    assert forall|j: int|
        line_kept(lines, is_zsh, j) && (r.len() < count || (r.len() > 0 && j > idx[r.len() - 1])) implies #[trigger] idx.contains(
        j,
    ) by {
        assert(full.contains(j));
        let p = choose|p: int| 0 <= p < full.len() && full[p] == j;
        if p >= r.len() {
            assert(r.len() == count);
            assert(full[r.len() - 1] > full[p]);
        }
        assert(idx[p] == j);
    }
    assert(idx.len() == r.len());
}

/// How many tokens a text is taken to hold: one per four characters, plus one.
pub open spec fn tokens_of(text: Seq<char>) -> nat {
    text.len() / 4 + 1
}

/// How many tokens `text` is taken to hold (see [`tokens_of`]).
pub fn estimate_tokens(text: &str) -> (n: usize)
    ensures
        n == tokens_of(text@),
{
    let c = crate::text::char_count(text);
    c / CHARS_PER_TOKEN + 1
}

/// The tokens of a history with its system prompt: the prompt's, then each
/// message's and four for its role.
pub open spec fn history_tokens(messages: Seq<ChatMessage>) -> nat
    decreases messages.len(),
{
    if messages.len() == 0 {
        0
    } else {
        history_tokens(messages.drop_last()) + tokens_of(messages.last().content@) + 4
    }
}

/// The tokens of `history` with the system prompt `system_prompt`.
pub fn estimate_total_tokens(history: &ChatHistory, system_prompt: &str) -> (n: Option<usize>)
    ensures
        match n {
            Some(t) => t == tokens_of(system_prompt@) + history_tokens(history.messages@),
            None => tokens_of(system_prompt@) + history_tokens(history.messages@) > usize::MAX,
        },
{
    let mut total = estimate_tokens(system_prompt);
    let mut i: usize = 0;
    while i < history.messages.len()
        invariant
            i <= history.messages@.len(),
            total == tokens_of(system_prompt@) + history_tokens(history.messages@.take(i as int)),
        decreases history.messages@.len() - i,
    {
        assert(history.messages@.take(i as int + 1).drop_last() =~= history.messages@.take(i as int));
        let t = estimate_tokens(history.messages[i].content.as_str());
        if total > usize::MAX - t || total + t > usize::MAX - 4 {
            proof {
                lemma_history_tokens_grow(history.messages@, i as int + 1);
            }
            return None;
        }
        total = total + t + 4;
        i = i + 1;
    }
    assert(history.messages@.take(history.messages@.len() as int) =~= history.messages@);
    Some(total)
}

/// The tokens of a history grow with its messages.
proof fn lemma_history_tokens_grow(ms: Seq<ChatMessage>, k: int)
    requires
        0 <= k <= ms.len(),
    ensures
        history_tokens(ms.take(k)) <= history_tokens(ms),
    decreases ms.len() - k,
{
    if k < ms.len() {
        lemma_history_tokens_grow(ms, k + 1);
        assert(ms.take(k + 1).drop_last() =~= ms.take(k));
    } else {
        assert(ms.take(k) =~= ms);
    }
}

/// Whether a history must be summarized before it is sent.
pub fn needs_summary(tokens: usize) -> (b: bool)
    ensures
        b == (tokens > TOKEN_THRESHOLD),
{
    tokens > TOKEN_THRESHOLD
}

/// The history that replaces a summarized one: a system note that it is a
/// summary, then the summary as the assistant's message, both at `now`.
pub fn summarized_history(session_id: &str, summary: &str, now: u64) -> (h: ChatHistory)
    ensures
        h.session_id@ == session_id@,
        h.messages@.len() == 2,
        h.messages@[0].role@ == "system"@,
        h.messages@[0].content@ == "Note: The following is a summarized version of a longer conversation."@,
        h.messages@[0].timestamp == now,
        h.messages@[1].role@ == "assistant"@,
        h.messages@[1].content@ == summary@,
        h.messages@[1].timestamp == now,
{
    let note = ChatMessage {
        role: String::from_str("system"),
        content: String::from_str("Note: The following is a summarized version of a longer conversation."),
        timestamp: now,
    };
    let body = ChatMessage { role: String::from_str("assistant"), content: String::from_str(summary), timestamp: now };
    ChatHistory { messages: vec![note, body], session_id: String::from_str(session_id) }
}

/// The content object of one message for the summarization request:
/// `{"parts": [{"text": content}], "role": role}`.
pub open spec fn content_json(text: Seq<char>, role: Seq<char>) -> Json {
    Json::Object(
        seq![
            ("parts"@, Json::Array(seq![Json::Object(seq![("text"@, Json::Str(text))])])),
            ("role"@, Json::Str(role)),
        ],
    )
}

/// The content object of one message.
pub fn content_to_json(text: &str, role: &str) -> (r: JsonValue)
    ensures
        r@ == content_json(text@, role@),
{
    let t = vec![member("text", json_str(text))];
    assert(members_view(t@) =~= seq![("text"@, Json::Str(text@))]);
    let parts = vec![json_object(t)];
    let pj = json_array(parts);
    assert(items_view(parts@) =~= seq![Json::Object(seq![("text"@, Json::Str(text@))])]);
    let m = vec![member("parts", pj), member("role", json_str(role))];
    assert(members_view(m@) =~= seq![
        ("parts"@, Json::Array(seq![Json::Object(seq![("text"@, Json::Str(text@))])])),
        ("role"@, Json::Str(role@)),
    ]);
    json_object(m)
}

/// The contents of the summarization request: every message with its role,
/// then the request to summarize.
pub fn summary_request_contents(history: &ChatHistory, request: &str) -> (r: Vec<JsonValue>)
    ensures
        r@.len() == history.messages@.len() + 1,
        forall|i: int| 0 <= i < history.messages@.len() ==> (#[trigger] r@[i])@ == content_json(
            history.messages@[i].content@,
            history.messages@[i].role@,
        ),
        r@[history.messages@.len() as int]@ == content_json(request@, "user"@),
{
    let mut out: Vec<JsonValue> = Vec::new();
    let mut i: usize = 0;
    while i < history.messages.len()
        invariant
            i <= history.messages@.len(),
            out@.len() == i,
            forall|k: int| 0 <= k < i ==> (#[trigger] out@[k])@ == content_json(
                history.messages@[k].content@,
                history.messages@[k].role@,
            ),
        decreases history.messages@.len() - i,
    {
        let m = &history.messages[i];
        out.push(content_to_json(m.content.as_str(), m.role.as_str()));
        i = i + 1;
    }
    out.push(content_to_json(request, "user"));
    out
}

/// The recent commands of a history file's lines (see [`file_commands_spec`]).
pub fn history_file_commands(lines: &Vec<String>, is_zsh: bool, count: usize) -> (r: Vec<String>)
    ensures
        crate::text::strings_view(r@) == file_commands_spec(crate::text::strings_view(lines@), is_zsh, count as nat),
{
    let ghost rev = crate::text::strings_view(lines@).reverse();
    let ghost nb = |l: Seq<char>| trim(l).len() > 0;
    let ghost cmd = |l: Seq<char>| history_line_command(l, is_zsh);
    let ghost keep = |c: Seq<char>| !is_own_command(c);
    let mut out: Vec<String> = Vec::new();
    let n = lines.len();
    let mut k: usize = 0;
    proof {
        reveal(Seq::filter);
    }
    assert(rev.take(0).filter(nb).map_values(cmd).filter(keep) =~= Seq::<Seq<char>>::empty());
    while k < n
        invariant
            n == lines@.len(),
            k <= n,
            rev == crate::text::strings_view(lines@).reverse(),
            nb == (|l: Seq<char>| trim(l).len() > 0),
            cmd == (|l: Seq<char>| history_line_command(l, is_zsh)),
            keep == (|c: Seq<char>| !is_own_command(c)),
            crate::text::strings_view(out@) == rev.take(k as int).filter(nb).map_values(cmd).filter(keep),
        decreases n - k,
    {
        let line = lines[n - 1 - k].as_str();
        let ghost pre = rev.take(k as int);
        let ghost x = rev[k as int];
        assert(x == line@);
        assert(rev.take(k as int + 1) =~= pre.push(x));
        proof {
            pre.lemma_filter_push(x, nb);
        }
        let t = trim_str(line);
        if !t.as_str().is_empty() {
            let c = line_command(line, is_zsh);
            let ghost f = pre.filter(nb);
            assert(f.push(x).map_values(cmd) =~= f.map_values(cmd).push(cmd(x)));
            proof {
                f.map_values(cmd).lemma_filter_push(cmd(x), keep);
            }
            if !own_command(c.as_str()) {
                let ghost before = out@;
                out.push(c);
                assert(crate::text::strings_view(out@) =~= crate::text::strings_view(before).push(cmd(x)));
            }
        }
        k = k + 1;
    }
    assert(rev.take(n as int) =~= rev);
    if out.len() > count {
        out.truncate(count);
    }
    out
}

} // verus!
