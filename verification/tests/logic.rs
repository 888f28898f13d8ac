use gemini_cli::chat::{task_advance, TaskEvent, TaskNext, TaskState};
use gemini_cli::memory_broker::{relevant_indices, relevant_memories};
use gemini_cli::auto_memory::extracted_items;
use gemini_cli::chat::{task_step, TaskAction};
use gemini_cli::chat::{task_function_retry_message, task_opening, task_retry_message};
use gemini_cli::history::{generate_session_id, session_export_line};
use gemini_cli::config::get_config_dir;
use gemini_cli::mcp::config::get_mcp_config_path;
use gemini_cli::chat::{extract_progress, function_name, is_task_complete, strip_awaiting};
use gemini_cli::history::{estimate_tokens, sanitize_session_id};
use gemini_cli::json::{sanitize_json_schema, JsonValue};
use gemini_cli::mcp::servers::memory_store::MemoryStore;
use gemini_cli::text::{parse_u64, trim_str, u64_to_string};
use gemini_cli::utils::{read_answer, split_function_name, Answer, ConfirmationLevel};

fn object(members: Vec<(&str, JsonValue)>) -> JsonValue {
    JsonValue::Object(members.into_iter().map(|(k, v)| (k.to_string(), v)).collect())
}

fn text(s: &str) -> JsonValue {
    JsonValue::Str(s.to_string())
}

fn keys(v: &JsonValue) -> Vec<String> {
    match v {
        JsonValue::Object(m) => m.iter().map(|(k, _)| k.clone()).collect(),
        _ => Vec::new(),
    }
}

#[test]
fn progress_marker_is_read_and_removed() {
    let (p, rest) = extract_progress("Working [PROGRESS: 50%] now");
    assert_eq!(p, Some(50));
    assert_eq!(rest, "Working  now");
    let (none, same) = extract_progress("no marker here");
    assert_eq!(none, None);
    assert_eq!(same, "no marker here");
    let (bad, kept) = extract_progress("[PROGRESS: lots]");
    assert_eq!(bad, None);
    assert_eq!(kept, "[PROGRESS: lots]");
}

#[test]
fn task_completion() {
    assert!(is_task_complete("All good. Task completed.", None));
    assert!(is_task_complete("nothing", Some(100)));
    assert!(!is_task_complete("nothing", Some(99)));
}

#[test]
fn awaiting_signal_is_stripped() {
    let (waiting, shown) = strip_awaiting("Which file? AWAITING_USER_RESPONSE\n");
    assert!(waiting);
    assert_eq!(shown, "Which file? ");
    let (not_waiting, same) = strip_awaiting(" plain ");
    assert!(!not_waiting);
    assert_eq!(same, " plain ");
}

#[test]
fn tool_names_become_function_names_and_back() {
    assert_eq!(function_name("filesystem/read_file"), "filesystem.read_file");
    assert_eq!(split_function_name("filesystem.read_file"), Ok(("filesystem".to_string(), "read_file".to_string())));
    assert_eq!(split_function_name("a.b.c"), Ok(("a".to_string(), "b/c".to_string())));
    assert_eq!(split_function_name("plain"), Err("Invalid function call name format: plain".to_string()));
}

#[test]
fn confirmation_answers() {
    assert!(matches!(read_answer(" Yes ", &ConfirmationLevel::Strict), Answer::Yes));
    assert!(matches!(read_answer("a", &ConfirmationLevel::Standard), Answer::Always));
    assert!(matches!(read_answer("a", &ConfirmationLevel::Strict), Answer::Cancel));
    assert!(matches!(read_answer("no", &ConfirmationLevel::Standard), Answer::Cancel));
}

#[test]
fn session_ids_and_tokens() {
    assert_eq!(sanitize_session_id("term_12/sh 3"), "term_12_sh_3");
    assert_eq!(estimate_tokens(""), 1);
    assert_eq!(estimate_tokens("abcdefgh"), 3);
}

#[test]
fn numbers_print_and_parse() {
    assert_eq!(u64_to_string(0), "0");
    assert_eq!(u64_to_string(18446744073709551615), "18446744073709551615");
    assert_eq!(parse_u64("42"), Some(42));
    assert_eq!(parse_u64("18446744073709551616"), None);
    assert_eq!(parse_u64("4x"), None);
    assert_eq!(trim_str("  a b \n"), "a b");
}

#[test]
fn schema_sanitizing_drops_unsupported_members() {
    let schema = object(vec![
        ("type", text("object")),
        ("additionalProperties", JsonValue::Bool(false)),
        ("properties", object(vec![("path", object(vec![("type", text("string")), ("default", text("."))]))])),
    ]);
    let once = sanitize_json_schema(&schema);
    assert_eq!(keys(&once), vec!["type".to_string(), "properties".to_string()]);
    let twice = sanitize_json_schema(&once);
    assert_eq!(keys(&twice), keys(&once));
}

#[test]
fn memory_store_updates_newest_entry() {
    let mut store = MemoryStore::new();
    assert_eq!(store.add_memory_at("k", "one", vec!["a".to_string()], 10), Ok(()));
    assert_eq!(store.add_memory_at("k", "two", vec!["b".to_string(), "a".to_string()], 20), Ok(()));
    assert_eq!(store.memories.len(), 1);
    assert_eq!(store.memories[0].value, "two");
    assert_eq!(store.memories[0].timestamp, 20);
    assert_eq!(store.memories[0].tags, vec!["a".to_string(), "b".to_string()]);
    assert_eq!(store.add_memory_at(" ", "v", Vec::new(), 1), Err("Memory key cannot be empty".to_string()));
    assert_eq!(store.add_memory_at("k", "", Vec::new(), 1), Err("Memory value cannot be empty".to_string()));
}

#[test]
fn memory_store_finds_and_deletes() {
    let mut store = MemoryStore::new();
    store.add_memory_at("a", "1", vec!["t".to_string()], 0).unwrap();
    store.add_memory_at("b", "2", Vec::new(), 0).unwrap();
    assert_eq!(store.get_by_key("a").len(), 1);
    assert_eq!(store.get_by_tag("t").len(), 1);
    assert_eq!(store.get_by_tag("  ").len(), 0);
    assert_eq!(store.delete_by_key("a"), 1);
    assert_eq!(store.get_by_key("a").len(), 0);
    assert_eq!(store.get_all_memories().len(), 1);
}

#[test]
fn deduplicate_keeps_newest_per_key() {
    let mut store = MemoryStore::new();
    store.add_memory_at("k", "old", Vec::new(), 0).unwrap();
    store.add_memory_at("k", "older", Vec::new(), 0).unwrap();
    store.add_memory_at("j", "x", Vec::new(), 0).unwrap();
    store.memories[0].timestamp = 5;
    store.memories[1].timestamp = 7;
    let removed = store.deduplicate();
    assert_eq!(removed, 1);
    assert_eq!(store.memories.len(), 2);
    let k: Vec<_> = store.memories.iter().filter(|m| m.key == "k").collect();
    assert_eq!(k.len(), 1);
    assert_eq!(k[0].value, "older");
}

#[test]
fn task_step_completes_on_full_progress() {
    let (action, last) = task_step(true, "Done all. [PROGRESS: 100%]", Some(40));
    assert_eq!(last, Some(100));
    match action {
        TaskAction::Complete { shown, progress } => {
            assert_eq!(shown, "Done all. ");
            assert_eq!(progress, Some(100));
        },
        TaskAction::Continue { .. } => panic!("a finished task went on"),
    }
}

#[test]
fn task_step_continues_and_keeps_last_progress() {
    let (action, last) = task_step(true, "Still working.", Some(40));
    assert_eq!(last, Some(40));
    match action {
        TaskAction::Continue { shown, progress } => {
            assert_eq!(shown, "Still working.");
            assert_eq!(progress, None);
        },
        TaskAction::Complete { .. } => panic!("an unfinished task stopped"),
    }
}

#[test]
fn task_step_completes_on_words_without_progress_reporting() {
    let (action, last) = task_step(false, "Task completed. [PROGRESS: 50%]", None);
    assert_eq!(last, None);
    match action {
        TaskAction::Complete { shown, progress } => {
            assert_eq!(shown, "Task completed. [PROGRESS: 50%]");
            assert_eq!(progress, None);
        },
        TaskAction::Continue { .. } => panic!("the completion words were missed"),
    }
}

#[test]
fn task_loop_messages() {
    assert_eq!(task_opening(), "Begin working on the task.");
    assert_eq!(task_retry_message("boom"), "An error occurred: boom. Please try again or continue with the task.");
    assert_eq!(
        task_function_retry_message("boom"),
        "An error occurred while processing function results: boom. Please try again or continue with the task."
    );
}

#[test]
fn session_id_prefers_exported_then_shell() {
    assert_eq!(generate_session_id(Some(" abc "), Some("42"), 7), "abc");
    assert_eq!(generate_session_id(Some("  "), Some(" 42\n"), 7), "term_42");
    assert_eq!(generate_session_id(None, None, 7), "session_7");
    assert_eq!(session_export_line("term_42"), "# export GEMINI_SESSION_ID=\"term_42\"");
}

#[test]
fn config_paths_live_under_the_suite_directory() {
    assert_eq!(get_config_dir(Some("/home/u/.config")), Ok("/home/u/.config/gemini-suite".to_string()));
    assert_eq!(
        get_mcp_config_path(Some("/home/u/.config")),
        Ok("/home/u/.config/gemini-suite/mcp_servers.json".to_string())
    );
    assert_eq!(get_config_dir(None), Err("Could not determine config directory".to_string()));
    assert!(get_mcp_config_path(None).is_err());
}

#[test]
fn adding_the_same_pair_twice_keeps_one_entry() {
    let mut store = MemoryStore::new();
    store.add_memory_at("k", "v", Vec::new(), 5).unwrap();
    store.add_memory_at("k", "v", Vec::new(), 6).unwrap();
    store.add_memory_at("k", "w", Vec::new(), 7).unwrap();
    store.add_memory_at("k", "v", Vec::new(), 8).unwrap();
    assert_eq!(store.memories.len(), 1);
    assert_eq!(store.memories[0].value, "v");
}

#[test]
fn deduplicating_twice_changes_nothing_more() {
    let mut store = MemoryStore::new();
    store.add_memory_at("k", "old", Vec::new(), 0).unwrap();
    store.add_memory_at("k", "newer", Vec::new(), 0).unwrap();
    store.add_memory_at("j", "x", Vec::new(), 3).unwrap();
    store.deduplicate();
    let once: Vec<(String, String)> = store.memories.iter().map(|m| (m.key.clone(), m.value.clone())).collect();
    assert_eq!(store.deduplicate(), 0);
    let twice: Vec<(String, String)> = store.memories.iter().map(|m| (m.key.clone(), m.value.clone())).collect();
    assert_eq!(once, twice);
}

#[test]
fn relevant_indices_read_the_answer() {
    assert_eq!(relevant_indices("[2, 0]"), vec![2, 0]);
    assert_eq!(relevant_indices("Relevant: [1] only"), vec![1]);
    assert_eq!(relevant_indices("nothing"), Vec::<usize>::new());
    assert_eq!(relevant_indices("[\"x\"]"), Vec::<usize>::new());
}

#[test]
fn relevant_memories_pick_by_index() {
    let ms = vec![text("zero"), text("one"), text("two")];
    let picked = relevant_memories(&ms, "[2, 7, 0]");
    assert_eq!(picked.len(), 2);
    assert!(matches!(&picked[0], JsonValue::Str(s) if s == "two"));
    assert!(matches!(&picked[1], JsonValue::Str(s) if s == "zero"));
}

#[test]
fn extracted_items_read_the_answer() {
    let items = extracted_items("Here: [{\"key\": \"k\", \"value\": \"v\"}, 3]");
    assert_eq!(items.len(), 2);
    assert_eq!(keys(&items[0]), vec!["key", "value"]);
    assert!(matches!(&items[1], JsonValue::Number(n) if n == "3"));
    assert!(extracted_items("no json").is_empty());
}

#[test]
fn task_advance_walks_the_loop() {
    let mut state = TaskState { message: task_opening(), last_progress: None };
    let o = task_advance(true, &mut state, TaskEvent::Replied { text: "Step one. [PROGRESS: 30%]".to_string(), called: false });
    assert!(matches!(o.next, TaskNext::Ask));
    assert_eq!(o.records, vec![
        ("user".to_string(), "Begin working on the task.".to_string()),
        ("assistant".to_string(), "Step one. ".to_string()),
    ]);
    assert_eq!(state.message, "Step one. ");
    assert_eq!(state.last_progress, Some(30));
    let o = task_advance(true, &mut state, TaskEvent::Replied { text: "Calling a tool".to_string(), called: true });
    assert!(matches!(o.next, TaskNext::RunTool));
    assert_eq!(state.message, "Step one. ");
    let o = task_advance(true, &mut state, TaskEvent::FollowUpFailed("timeout".to_string()));
    assert!(matches!(o.next, TaskNext::Ask));
    assert!(o.records.is_empty());
    assert_eq!(state.message, "An error occurred while processing function results: timeout. Please try again or continue with the task.");
    let o = task_advance(true, &mut state, TaskEvent::FollowUpReplied("Task completed.".to_string()));
    assert!(matches!(o.next, TaskNext::Finish));
    assert_eq!(o.records, vec![("assistant".to_string(), "Task completed.".to_string())]);
    assert_eq!(state.last_progress, Some(30));
    let o = task_advance(false, &mut state, TaskEvent::ModelFailed("down".to_string()));
    assert!(matches!(o.next, TaskNext::Ask));
    assert_eq!(state.message, "An error occurred: down. Please try again or continue with the task.");
}
