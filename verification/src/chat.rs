//! The decisions of the chat and task loops: the system prompts they use,
//! the progress marks and the signal the model writes, when a task is done,
//! and whose turn it is next.

use vstd::prelude::*;
use crate::text::{
    cat2, cat3, chars_of, has_infix, has_prefix, is_digit, parse_u64_spec, str_contains, str_eq,
    string_of, trim, trim_str,
};

verus! {

/// The name a tool `server/tool` is offered to Gemini under: slashes
/// written as dots.
pub open spec fn function_name_spec(tool: Seq<char>) -> Seq<char> {
    tool.map_values(|c: char| if c == '/' { '.' } else { c })
}

/// The name a tool is offered to Gemini under (see [`function_name_spec`]).
pub fn function_name(tool: &str) -> (r: String)
    ensures
        r@ == function_name_spec(tool@),
{
    let v = chars_of(tool);
    let mut out: Vec<char> = Vec::new();
    let mut i: usize = 0;
    while i < v.len()
        invariant
            v@ == tool@,
            i <= v@.len(),
            out@ =~= function_name_spec(v@.take(i as int)),
        decreases v@.len() - i,
    {
        out.push(if v[i] == '/' { '.' } else { v[i] });
        i = i + 1;
    }
    assert(v@.take(v@.len() as int) =~= v@);
    string_of(out.as_slice())
}

/// The first position of `p` in `s`, if it occurs.
pub open spec fn find_spec(s: Seq<char>, p: Seq<char>) -> Option<int> {
    if has_infix(s, p) {
        Some(choose|i: int| crate::text::occurs_at(s, p, i) && forall|j: int| 0 <= j < i ==> !crate::text::occurs_at(s, p, j))
    } else {
        None
    }
}

/// The first occurrence is the position found by a left-to-right search.
proof fn lemma_find_first(s: Seq<char>, p: Seq<char>, i: int)
    requires
        crate::text::occurs_at(s, p, i),
        forall|k: int| 0 <= k < i ==> !crate::text::occurs_at(s, p, k),
    ensures
        find_spec(s, p) == Some(i),
{
    assert(has_infix(s, p));
    let c = choose|c: int| crate::text::occurs_at(s, p, c) && forall|j: int| 0 <= j < c ==> !crate::text::occurs_at(s, p, j);
    if c < i {
        assert(!crate::text::occurs_at(s, p, c));
    } else if c > i {
        assert(!crate::text::occurs_at(s, p, i));
    }
}

/// The first position of `p` in `s` (see [`find_spec`]).
pub fn find(s: &Vec<char>, p: &Vec<char>) -> (r: Option<usize>)
    ensures
        match r {
            Some(i) => find_spec(s@, p@) == Some(i as int) && crate::text::occurs_at(s@, p@, i as int)
                && forall|k: int| 0 <= k < i ==> !crate::text::occurs_at(s@, p@, k),
            None => find_spec(s@, p@) is None && !has_infix(s@, p@),
        },
{
    let mut i: usize = 0;
    while i < s.len()
        invariant
            i <= s@.len(),
            forall|k: int| 0 <= k < i ==> !crate::text::occurs_at(s@, p@, k),
        decreases s@.len() - i,
    {
        if crate::text::matches_at(s, p, i) {
            proof {
                lemma_find_first(s@, p@, i as int);
            }
            return Some(i);
        }
        i = i + 1;
    }
    if crate::text::matches_at(s, p, i) {
        proof {
            lemma_find_first(s@, p@, i as int);
        }
        return Some(i);
    }
    assert forall|k: int| !crate::text::occurs_at(s@, p@, k) by {
        if 0 <= k && k + p@.len() <= s@.len() {
            assert(k <= i);
        }
    }
    None
}

/// The progress a response reports with `[PROGRESS: X%]`, and the response
/// without that mark; the response as it is when there is no readable mark.
pub open spec fn progress_spec(text: Seq<char>) -> (Option<u8>, Seq<char>) {
    match find_spec(text, "[PROGRESS:"@) {
        Some(start) => {
            let after = text.skip(start);
            match find_spec(after, "]"@) {
                Some(end) => {
                    let inner = trim(text.subrange(start + 10, start + end));
                    match find_spec(inner, "%"@) {
                        Some(pct) => match parse_u64_spec(trim(inner.take(pct))) {
                            Some(n) if n <= 255 => (Some(n as u8), text.take(start) + text.skip(start + end + 1)),
                            _ => (None, text),
                        },
                        None => (None, text),
                    }
                },
                None => (None, text),
            }
        },
        None => (None, text),
    }
}

/// The characters `v[from..to]`.
pub fn slice_chars(v: &Vec<char>, from: usize, to: usize) -> (r: Vec<char>)
    requires
        from <= to <= v@.len(),
    ensures
        r@ == v@.subrange(from as int, to as int),
{
    let mut r: Vec<char> = Vec::new();
    let mut k: usize = from;
    while k < to
        invariant
            from <= k <= to <= v@.len(),
            r@ =~= v@.subrange(from as int, k as int),
        decreases to - k,
    {
        r.push(v[k]);
        k = k + 1;
    }
    r
}

/// The progress a response reports, and the response without its mark
/// (see [`progress_spec`]).
pub fn extract_progress(text: &str) -> (r: (Option<u8>, String))
    ensures
        r.0 == progress_spec(text@).0,
        r.1@ == progress_spec(text@).1,
{
    let t = chars_of(text);
    let marker = chars_of("[PROGRESS:");
    let close = chars_of("]");
    let percent = chars_of("%");
    proof {
        reveal_strlit("[PROGRESS:");
        reveal_strlit("]");
        reveal_strlit("%");
    }
    let start = match find(&t, &marker) {
        Some(s) => s,
        None => return (None, String::from_str(text)),
    };
    assert(start <= t@.len());
    let after = slice_chars(&t, start, t.len());
    assert(after@ =~= text@.skip(start as int));
    let end = match find(&after, &close) {
        Some(e) => e,
        None => return (None, String::from_str(text)),
    };
    proof {
        assert(crate::text::occurs_at(after@, "]"@, end as int));
        assert(after@.subrange(end as int, end + 1)[0] == "]"@[0]);
        assert(after@[end as int] == ']');
        assert(crate::text::occurs_at(text@, "[PROGRESS:"@, start as int));
        assert(text@.subrange(start as int, start + 10) == "[PROGRESS:"@);
        if end < 10 {
            assert(text@[start + end] == after@[end as int]);
            assert(text@.subrange(start as int, start + 10)[end as int] == text@[start + end]);
            assert("[PROGRESS:"@[end as int] != ']');
        }
    }
    let inner_raw = slice_chars(&t, start + 10, start + end);
    let inner_s = string_of(inner_raw.as_slice());
    let inner_t = trim_str(inner_s.as_str());
    let inner = chars_of(inner_t.as_str());
    let pct = match find(&inner, &percent) {
        Some(p) => p,
        None => return (None, String::from_str(text)),
    };
    let num_raw = slice_chars(&inner, 0, pct);
    let num_s = string_of(num_raw.as_slice());
    let num_t = trim_str(num_s.as_str());
    assert(inner@.take(pct as int) =~= inner@.subrange(0, pct as int));
    match crate::text::parse_u64(num_t.as_str()) {
        Some(n) => {
            if n <= 255 {
                let head = slice_chars(&t, 0, start);
                let tail = slice_chars(&t, start + end + 1, t.len());
                assert(head@ =~= text@.take(start as int));
                assert(tail@ =~= text@.skip(start + end + 1));
                let hs = string_of(head.as_slice());
                let ts = string_of(tail.as_slice());
                (Some(n as u8), cat2(hs.as_str(), ts.as_str()))
            } else {
                (None, String::from_str(text))
            }
        },
        None => (None, String::from_str(text)),
    }
}

/// `s` without every `suffix` at its end, however many times it repeats.
pub open spec fn trim_end_matches(s: Seq<char>, suffix: Seq<char>) -> Seq<char>
    decreases s.len(),
{
    if suffix.len() > 0 && suffix.len() <= s.len() && s.subrange(s.len() - suffix.len(), s.len() as int) == suffix {
        trim_end_matches(s.take(s.len() - suffix.len()), suffix)
    } else {
        s
    }
}

/// The signal the model ends with when it needs the user.
pub open spec fn awaiting_signal() -> Seq<char> {
    "AWAITING_USER_RESPONSE"@
}

/// Whether the trimmed response ends with the signal, and the response to
/// show: trimmed, with the signal removed as often as it repeats at the end,
/// when it is there.
pub open spec fn awaiting_spec(text: Seq<char>) -> (bool, Seq<char>) {
    let t = trim(text);
    let ends = awaiting_signal().len() <= t.len() && t.subrange(t.len() - awaiting_signal().len(), t.len() as int) == awaiting_signal();
    if ends {
        (true, trim_end_matches(t, awaiting_signal()))
    } else {
        (false, text)
    }
}

/// Whether the response asks for the user, and the response to show (see
/// [`awaiting_spec`]).
pub fn strip_awaiting(text: &str) -> (r: (bool, String))
    ensures
        r.0 == awaiting_spec(text@).0,
        r.1@ == awaiting_spec(text@).1,
{
    let t = trim_str(text);
    let v = chars_of(t.as_str());
    let sig = chars_of("AWAITING_USER_RESPONSE");
    let k = sig.len();
    proof {
        reveal_strlit("AWAITING_USER_RESPONSE");
    }
    let mut end = v.len();
    let ends = k <= end && crate::text::matches_at(&v, &sig, end - k);
    if !ends {
        return (false, String::from_str(text));
    }
    assert(v@.subrange(end - k, end as int) == sig@);
    let ghost full = v@;
    assert(trim_end_matches(full, sig@) == trim_end_matches(full.take(end as int), sig@)) by {
        assert(full.take(end as int) =~= full);
    }
    while k <= end && crate::text::matches_at(&v, &sig, end - k)
        invariant
            v@ == full,
            k == sig@.len(),
            k > 0,
            end <= v@.len(),
            trim_end_matches(full, sig@) == trim_end_matches(full.take(end as int), sig@),
        decreases end,
    {
        proof {
            let cur = full.take(end as int);
            assert(cur.subrange(cur.len() - k, cur.len() as int) =~= full.subrange(end - k, end as int));
            assert(cur.take(cur.len() - k) =~= full.take(end - k));
        }
        end = end - k;
    }
    proof {
        let cur = full.take(end as int);
        if k <= end {
            assert(cur.subrange(cur.len() - k, cur.len() as int) =~= full.subrange(end - k, end as int));
        }
    }
    let head = slice_chars(&v, 0, end);
    assert(head@ =~= full.take(end as int));
    (true, string_of(head.as_slice()))
}

/// A task is done when the response says `Task completed` (or `Task
/// Completed`) or the progress reaches 100.
pub open spec fn task_done_spec(text: Seq<char>, progress: Option<u8>) -> bool {
    has_infix(text, "Task completed"@) || has_infix(text, "Task Completed"@) || (progress matches Some(p) && p >= 100)
}

/// Whether the task is done (see [`task_done_spec`]).
pub fn is_task_complete(text: &str, progress: Option<u8>) -> (b: bool)
    ensures
        b == task_done_spec(text@, progress),
{
    str_contains(text, "Task completed") || str_contains(text, "Task Completed") || match progress {
        Some(p) => p >= 100,
        None => false,
    }
}

/// The instruction about the signal that every chat's system prompt gets.
pub open spec fn signal_instruction() -> Seq<char> {
    "\n\nYou can continue the conversation proactively. If and only if you specifically need input or a response from the user to proceed, end your message with the exact phrase: AWAITING_USER_RESPONSE"@
}

/// The instruction about progress marks.
pub open spec fn progress_instruction() -> Seq<char> {
    "\n\nWhen working on tasks, report progress using the format: [PROGRESS: X%] where X is the percentage complete."@
}

/// The system prompt of the interactive chat.
pub fn chat_system_prompt(base: &str, progress_reporting: bool) -> (r: String)
    ensures
        r@ == base@ + signal_instruction() + if progress_reporting {
            progress_instruction()
        } else {
            Seq::empty()
        },
{
    let mut p = String::from_str(base);
    p.append(
        "\n\nYou can continue the conversation proactively. If and only if you specifically need input or a response from the user to proceed, end your message with the exact phrase: AWAITING_USER_RESPONSE",
    );
    if progress_reporting {
        p.append("\n\nWhen working on tasks, report progress using the format: [PROGRESS: X%] where X is the percentage complete.");
    } else {
        assert(p@ + Seq::<char>::empty() =~= p@);
    }
    p
}

/// The system prompt of the interactive task chat.
pub fn interactive_task_prompt(base: &str, task: &str, progress_reporting: bool) -> (r: String)
    ensures
        r@ == base@ + "\n\nYour current task is: "@ + task@
            + "\n\nWork on this"@
            + " task step by step, using available"@
            + " tools as needed. The user can provide guidance at any point. End your message with AWAITING_USER_RESPONSE when you need input."@
            + if progress_reporting {
            "\n\nReport your progress using the format: [PROGRESS: X%] where X is the percentage complete."@
        } else {
            Seq::empty()
        },
{
    let mut p = cat3(base, "\n\nYour current task is: ", task);
    p.append(
        "\n\nWork on this",
    );
    p.append(
        " task step by step, using available",
    );
    p.append(
        " tools as needed. The user can provide guidance at any point. End your message with AWAITING_USER_RESPONSE when you need input.",
    );
    if progress_reporting {
        p.append("\n\nReport your progress using the format: [PROGRESS: X%] where X is the percentage complete.");
    } else {
        assert(p@ + Seq::<char>::empty() =~= p@);
    }
    p
}

/// The system prompt of the autonomous task loop.
pub fn autonomous_task_prompt(base: &str, task: &str, progress_reporting: bool) -> (r: String)
    ensures
        r@ == base@ + "\n\nYour current task is: "@ + task@ + if progress_reporting {
            "\n\nYou should work autonomously to complete this"@
                + " task. Use available tools as needed. Report your progress using the format: [PROGRESS: X%] where X is the percentage complete."@
        } else {
            "\n\nYou should work autonomously to complete this"@
                + " task. Use available tools as needed. Provide updates on your progress."@
        },
{
    let mut p = cat3(base, "\n\nYour current task is: ", task);
    if progress_reporting {
        p.append("\n\nYou should work autonomously to complete this");
        p.append(
            " task. Use available tools as needed. Report your progress using the format: [PROGRESS: X%] where X is the percentage complete.",
        );
    } else {
        p.append("\n\nYou should work autonomously to complete this");
        p.append(" task. Use available tools as needed. Provide updates on your progress.");
    }
    p
}

/// What a line the user typed in the chat means.
pub enum ChatInput {
    /// `/auto`: switch automatic continuation.
    ToggleAuto,
    /// `/interrupt`: stop the model and wait for the user.
    Interrupt,
    /// `/help`.
    Help,
    /// `exit`, `quit`, `/exit` or `/quit`.
    Exit,
    /// Nothing.
    Empty,
    /// A message for the model.
    Message,
}

/// What the trimmed line `input` means.
pub fn classify_input(input: &str) -> (r: ChatInput)
    ensures
        input@ == "/auto"@ ==> r is ToggleAuto,
        input@ == "/interrupt"@ ==> r is Interrupt,
        input@ == "/help"@ ==> r is Help,
        (input@ == "exit"@ || input@ == "quit"@ || input@ == "/exit"@ || input@ == "/quit"@) ==> r is Exit,
        input@.len() == 0 ==> r is Empty,
        (r is Message) == !(input@ == "/auto"@ || input@ == "/interrupt"@ || input@ == "/help"@ || input@ == "exit"@
            || input@ == "quit"@ || input@ == "/exit"@ || input@ == "/quit"@ || input@.len() == 0),
{
    proof {
        reveal_strlit("/auto");
        reveal_strlit("/interrupt");
        reveal_strlit("/help");
        reveal_strlit("exit");
        reveal_strlit("quit");
        reveal_strlit("/exit");
        reveal_strlit("/quit");
        assert("/auto"@[1] != "/interrupt"@[1]);
        assert("/auto"@[1] != "/help"@[1]);
        assert("/auto"@[0] != "exit"@[0]);
        assert("/auto"@[0] != "quit"@[0]);
        assert("/auto"@[1] != "/exit"@[1]);
        assert("/auto"@[1] != "/quit"@[1]);
        assert("/interrupt"@[1] != "/help"@[1]);
        assert("/interrupt"@[0] != "exit"@[0]);
        assert("/interrupt"@[0] != "quit"@[0]);
        assert("/interrupt"@[1] != "/exit"@[1]);
        assert("/interrupt"@[1] != "/quit"@[1]);
        assert("/help"@[0] != "exit"@[0]);
        assert("/help"@[0] != "quit"@[0]);
        assert("/help"@[1] != "/exit"@[1]);
        assert("/help"@[1] != "/quit"@[1]);
    }
    if str_eq(input, "/auto") {
        ChatInput::ToggleAuto
    } else if str_eq(input, "/interrupt") {
        ChatInput::Interrupt
    } else if str_eq(input, "/help") {
        ChatInput::Help
    } else if str_eq(input, "exit") || str_eq(input, "quit") || str_eq(input, "/exit") || str_eq(input, "/quit") {
        ChatInput::Exit
    } else if input.is_empty() {
        ChatInput::Empty
    } else {
        ChatInput::Message
    }
}

/// Who speaks next in the chat.
pub enum NextTurn {
    /// The user.
    User,
    /// The model continues on its own.
    Model,
}

/// After the model has spoken: with automatic continuation on and no call
/// for the user, the model goes on, up to `max` turns in a row; otherwise,
/// or once `max` is reached, the user speaks and the count starts again.
/// Returns who speaks next, the new count, and whether the limit was hit.
pub fn after_model_turn(auto_continue: bool, awaiting_user: bool, consecutive: u32, max: u32) -> (r: (NextTurn, u32, bool))
    ensures
        auto_continue && !awaiting_user && consecutive + 1 < max ==> r.0 is Model && r.1 == consecutive + 1 && !r.2,
        auto_continue && !awaiting_user && consecutive + 1 >= max ==> r.0 is User && r.1 == 0 && r.2,
        !(auto_continue && !awaiting_user) ==> r.0 is User && r.1 == 0 && !r.2,
{
    if auto_continue && !awaiting_user {
        if consecutive >= max || consecutive + 1 >= max {
            (NextTurn::User, 0, true)
        } else {
            (NextTurn::Model, consecutive + 1, false)
        }
    } else {
        (NextTurn::User, 0, false)
    }
}

/// The prompt sent for the user's `prompt`: with `--command-help` it asks
/// for the Linux command that does it.
pub fn formatted_prompt(prompt: &str, command_help: bool) -> (r: String)
    ensures
        r@ == if command_help {
            "Provide the Linux command for: "@ + prompt@
        } else {
            prompt@
        },
{
    if command_help {
        cat2("Provide the Linux command for: ", prompt)
    } else {
        String::from_str(prompt)
    }
}

/// What the task loop does after a reply of the model.
pub enum TaskAction {
    /// The task is done; the reply (its progress marker removed) is shown.
    Complete { shown: String, progress: Option<u8> },
    /// The reply is shown and becomes the next message of the loop.
    Continue { shown: String, progress: Option<u8> },
}

/// The progress a reply reports and the text it is shown as: with progress
/// reporting on, the `[PROGRESS: X%]` marker is read and removed.
pub open spec fn task_reading(progress_reporting: bool, reply: Seq<char>) -> (Option<u8>, Seq<char>) {
    if progress_reporting {
        progress_spec(reply)
    } else {
        (None, reply)
    }
}

/// The action after `reply`, with the last progress seen before it: the
/// task is complete when the shown reply says so or its progress reaches
/// 100, otherwise the loop goes on with the shown reply; the last progress
/// becomes this reply's progress when it reports one.
pub fn task_step(progress_reporting: bool, reply: &str, last_progress: Option<u8>) -> (r: (TaskAction, Option<u8>))
    ensures
        ({
            let (p, shown) = task_reading(progress_reporting, reply@);
            &&& r.1 == (if p is Some { p } else { last_progress })
            &&& if task_done_spec(shown, p) {
                r.0 matches TaskAction::Complete { shown: t, progress } && t@ == shown && progress == p
            } else {
                r.0 matches TaskAction::Continue { shown: t, progress } && t@ == shown && progress == p
            }
        }),
{
    let (p, shown) = if progress_reporting {
        extract_progress(reply)
    } else {
        (None, String::from_str(reply))
    };
    let last = match p {
        Some(x) => Some(x),
        None => last_progress,
    };
    if is_task_complete(shown.as_str(), p) {
        (TaskAction::Complete { shown, progress: p }, last)
    } else {
        (TaskAction::Continue { shown, progress: p }, last)
    }
}

/// Where the task loop stands: the message it sends the model next, and the
/// last progress the model reported.
pub struct TaskState {
    pub message: String,
    pub last_progress: Option<u8>,
}

/// What happened in the task loop since the last step.
pub enum TaskEvent {
    /// The model could not be reached, for `reason`.
    ModelFailed(String),
    /// The model answered the message with `text`, calling a tool when
    /// `called`.
    Replied { text: String, called: bool },
    /// After the tool ran, the model could not be reached, for `reason`.
    FollowUpFailed(String),
    /// After the tool ran, the model answered with `text`.
    FollowUpReplied(String),
}

/// What the task loop does next.
pub enum TaskNext {
    /// Send the state's message to the model.
    Ask,
    /// Run the tool the model called and send it the result.
    RunTool,
    /// Stop: the task is done.
    Finish,
}

/// The outcome of a step: the history entries (role, text) to record, the
/// reply to show with its progress, and the next move.
pub struct TaskOutcome {
    pub records: Vec<(String, String)>,
    pub shown: Option<(String, Option<u8>)>,
    pub next: TaskNext,
}

/// The history entries of an outcome as plain values.
pub open spec fn records_view(r: Seq<(String, String)>) -> Seq<(Seq<char>, Seq<char>)> {
    r.map_values(|e: (String, String)| (e.0@, e.1@))
}

/// The shown reply of an outcome as plain values.
pub open spec fn shown_view(s: Option<(String, Option<u8>)>) -> Option<(Seq<char>, Option<u8>)> {
    match s {
        Some((t, p)) => Some((t@, p)),
        None => None,
    }
}

/// The task loop after a reply `text` (shown with its progress marker
/// removed when progress reporting is on): the task is finished when the
/// shown reply says so or its progress reaches 100, otherwise the shown
/// reply is the next message; the last progress becomes the reply's when it
/// reports one.
pub open spec fn after_reply(
    progress_reporting: bool,
    text: Seq<char>,
    last: Option<u8>,
) -> (Option<u8>, Seq<char>, Option<u8>, bool) {
    let (p, shown) = task_reading(progress_reporting, text);
    (p, shown, if p is Some { p } else { last }, task_done_spec(shown, p))
}

/// One step of the task loop, from the state `state` and the event `event`:
/// - the model could not be reached: the message is recorded as the user's,
///   and the loop asks again with the retry message;
/// - the model answered: the message and the shown reply are recorded; with a
///   tool call the tool runs next, otherwise the loop finishes when the task
///   is done and else goes on with the shown reply;
/// - the answer after the tool could not be had: the loop asks again with
///   the retry message for function results;
/// - the model answered after the tool: the shown reply is recorded, and the
///   loop finishes or goes on with it as above.
pub fn task_advance(progress_reporting: bool, state: &mut TaskState, event: TaskEvent) -> (o: TaskOutcome)
    ensures
        match event {
            TaskEvent::ModelFailed(reason) => {
                &&& records_view(o.records@) == seq![("user"@, old(state).message@)]
                &&& o.shown is None
                &&& o.next is Ask
                &&& final(state).message@ == "An error occurred: "@ + reason@
                    + ". Please try again or continue with the task."@
                &&& final(state).last_progress == old(state).last_progress
            },
            TaskEvent::Replied { text, called } => {
                let (p, shown, last, done) = after_reply(progress_reporting, text@, old(state).last_progress);
                &&& records_view(o.records@) == seq![("user"@, old(state).message@), ("assistant"@, shown)]
                &&& shown_view(o.shown) == Some((shown, p))
                &&& final(state).last_progress == last
                &&& if called {
                    o.next is RunTool && final(state).message@ == old(state).message@
                } else if done {
                    o.next is Finish && final(state).message@ == old(state).message@
                } else {
                    o.next is Ask && final(state).message@ == shown
                }
            },
            TaskEvent::FollowUpFailed(reason) => {
                &&& o.records@.len() == 0
                &&& o.shown is None
                &&& o.next is Ask
                &&& final(state).message@ == "An error occurred while processing function results: "@ + reason@
                    + ". Please try again or continue with the task."@
                &&& final(state).last_progress == old(state).last_progress
            },
            TaskEvent::FollowUpReplied(text) => {
                let (p, shown, last, done) = after_reply(progress_reporting, text@, old(state).last_progress);
                &&& records_view(o.records@) == seq![("assistant"@, shown)]
                &&& shown_view(o.shown) == Some((shown, p))
                &&& final(state).last_progress == last
                &&& if done {
                    o.next is Finish && final(state).message@ == old(state).message@
                } else {
                    o.next is Ask && final(state).message@ == shown
                }
            },
        },
{
    match event {
        TaskEvent::ModelFailed(reason) => {
            let records = vec![(String::from_str("user"), state.message.clone())];
            assert(records_view(records@) =~= seq![("user"@, old(state).message@)]);
            state.message = task_retry_message(reason.as_str());
            TaskOutcome { records, shown: None, next: TaskNext::Ask }
        },
        TaskEvent::FollowUpFailed(reason) => {
            state.message = task_function_retry_message(reason.as_str());
            TaskOutcome { records: Vec::new(), shown: None, next: TaskNext::Ask }
        },
        TaskEvent::Replied { text, called } => {
            let (action, last) = task_step(progress_reporting, text.as_str(), state.last_progress);
            state.last_progress = last;
            let (shown, p, done) = match action {
                TaskAction::Complete { shown, progress } => (shown, progress, true),
                TaskAction::Continue { shown, progress } => (shown, progress, false),
            };
            let records = vec![(String::from_str("user"), state.message.clone()), (String::from_str("assistant"), shown.clone())];
            assert(records_view(records@) =~= seq![("user"@, old(state).message@), ("assistant"@, shown@)]);
            let next = if called {
                TaskNext::RunTool
            } else if done {
                TaskNext::Finish
            } else {
                state.message = shown.clone();
                TaskNext::Ask
            };
            TaskOutcome { records, shown: Some((shown, p)), next }
        },
        TaskEvent::FollowUpReplied(text) => {
            let (action, last) = task_step(progress_reporting, text.as_str(), state.last_progress);
            state.last_progress = last;
            let (shown, p, done) = match action {
                TaskAction::Complete { shown, progress } => (shown, progress, true),
                TaskAction::Continue { shown, progress } => (shown, progress, false),
            };
            let records = vec![(String::from_str("assistant"), shown.clone())];
            assert(records_view(records@) =~= seq![("assistant"@, shown@)]);
            let next = if done {
                TaskNext::Finish
            } else {
                state.message = shown.clone();
                TaskNext::Ask
            };
            TaskOutcome { records, shown: Some((shown, p)), next }
        },
    }
}

/// The message that starts the task loop.
pub fn task_opening() -> (r: String)
    ensures
        r@ == "Begin working on the task."@,
{
    String::from_str("Begin working on the task.")
}

/// The message the task loop goes on with after the model could not be
/// reached (`reason`).
pub fn task_retry_message(reason: &str) -> (r: String)
    ensures
        r@ == "An error occurred: "@ + reason@ + ". Please try again or continue with the task."@,
{
    cat3("An error occurred: ", reason, ". Please try again or continue with the task.")
}

/// The message the task loop goes on with after the answer to a function's
/// results could not be had (`reason`).
pub fn task_function_retry_message(reason: &str) -> (r: String)
    ensures
        r@ == "An error occurred while processing function results: "@ + reason@
            + ". Please try again or continue with the task."@,
{
    cat3("An error occurred while processing function results: ", reason, ". Please try again or continue with the task.")
}

/// The first message of the interactive task chat.
pub fn task_chat_opening() -> (r: String)
    ensures
        r@ == "Let's work on the task you've been assigned. First, please analyze what needs to be done and create a step-by-step plan."@,
{
    String::from_str(
        "Let's work on the task you've been assigned. First, please analyze what needs to be done and create a step-by-step plan.",
    )
}

} // verus!
