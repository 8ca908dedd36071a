use foxmayn_cowork::error::AppError;
use foxmayn_cowork::exchange::{Exchange, LlmOutcome, Notice, Step};
use foxmayn_cowork::fsrules::{
    check_create_file, check_delete_many, check_edit_file, check_pdf_size, check_read_size,
    check_rename_many, compile_search_regex, finish_search, patch_content, scan_file,
    search_descends, SearchState,
};
use foxmayn_cowork::json::JsonValue;
use foxmayn_cowork::listing::{sort_entries, FileEntry};
use foxmayn_cowork::pdf::pdf_outcome;
use foxmayn_cowork::prompt::{system_prompt, working_dir_summary};
use foxmayn_cowork::config::ToolDisplayVerbosity;
use foxmayn_cowork::state::PendingToolCall;
use foxmayn_cowork::tools::dispatch::{awaiting_confirmation, completed};
use foxmayn_cowork::turns::{confirmation_start, confirmed_transcript, no_directory_outcome, working_messages, ConfirmStart};
use foxmayn_cowork::types::{FunctionCall, Message, ToolCall};
use foxmayn_cowork::MAX_TOOL_ROUNDS;

fn refusal(r: Result<impl Sized, AppError>) -> String {
    match r {
        Err(AppError::ToolValidation(m)) => m,
        _ => panic!("expected a refused tool call"),
    }
}

fn entry(name: &str, is_dir: bool) -> FileEntry {
    FileEntry { name: name.to_string(), path: format!("/p/{name}"), is_dir, size: 1 }
}

fn call_msg(name: &str) -> Message {
    let mut m = Message::user(String::new());
    m.role = "assistant".to_string();
    m.tool_calls = Some(vec![ToolCall {
        id: Some("c1".to_string()),
        function: FunctionCall { name: name.to_string(), arguments: JsonValue::Null },
    }]);
    m
}

fn words(text: &str) -> Message {
    let mut m = Message::user(text.to_string());
    m.role = "assistant".to_string();
    m
}

#[test]
fn patches_need_exactly_one_occurrence() {
    assert_eq!(patch_content("a b a", "b", "c").unwrap(), "a c a");
    assert_eq!(refusal(patch_content("abc", "x", "y")), "Search text not found in file");
    assert_eq!(
        refusal(patch_content("aXbXc", "X", "y")),
        "Search text is ambiguous: found 2 occurrences, expected exactly 1. Use edit_file to overwrite the entire file."
    );
    assert_eq!(patch_content("aaa", "aa", "b").unwrap(), "ba");
}

#[test]
fn file_checks_refuse_with_the_original_messages() {
    assert!(check_read_size(5 * 1024 * 1024).is_ok());
    assert_eq!(
        refusal(check_read_size(5 * 1024 * 1024 + 1)),
        "File is too large to read (5242881 bytes, max 5 MB)"
    );
    assert_eq!(refusal(check_pdf_size(52_428_801)), "PDF is too large (52428801 bytes, max 50 MB)");
    assert_eq!(
        refusal(check_create_file("a.txt", true)),
        "File already exists: a.txt. Use edit_file to overwrite."
    );
    assert!(check_create_file("a.txt", false).is_ok());
    assert_eq!(
        refusal(check_edit_file("a.txt", false)),
        "File does not exist: a.txt. Use create_file to create a new file."
    );
}

#[test]
fn bulk_checks_report_the_first_problem() {
    let paths = vec!["a".to_string(), "b".to_string()];
    assert_eq!(check_delete_many(&paths, &vec![true, true]).unwrap(), 2);
    assert_eq!(refusal(check_delete_many(&paths, &vec![true, false])), "Path does not exist: b");
    assert_eq!(refusal(check_delete_many(&Vec::new(), &Vec::new())), "No paths were provided for bulk delete");
    let ops = vec![("a".to_string(), "x".to_string()), ("b".to_string(), "x".to_string())];
    assert_eq!(
        refusal(check_rename_many(&ops, &vec![true, true], &vec![false, false])),
        "Duplicate destination in rename plan: x"
    );
    assert_eq!(
        refusal(check_rename_many(&ops, &vec![false, true], &vec![false, false])),
        "Source does not exist: a"
    );
    let ok = vec![("a".to_string(), "x".to_string())];
    assert_eq!(check_rename_many(&ok, &vec![true], &vec![false]).unwrap(), 1);
}

#[test]
fn searches_report_lines_and_totals() {
    assert!(!search_descends(".git"));
    assert!(!search_descends("node_modules"));
    assert!(search_descends("src"));
    let re = match compile_search_regex("fn \\w+") {
        Ok(p) => p,
        Err(_) => panic!("the pattern compiles"),
    };
    assert!(refusal(compile_search_regex("(")).starts_with("Invalid regex pattern: "));
    let mut state = SearchState { results: Vec::new(), total: 0 };
    scan_file(&mut state, "/p/a.rs", "fn main() {}\n  let x = 1;\n   fn helper()  \n", &re, 1);
    assert_eq!(state.total, 2);
    assert_eq!(state.results, vec!["/p/a.rs:1: fn main() {}".to_string()]);
    assert_eq!(
        finish_search(&state, 1),
        "/p/a.rs:1: fn main() {}\n\n(showing first 1 of 2 total matches)"
    );
    let empty = SearchState { results: Vec::new(), total: 0 };
    assert_eq!(finish_search(&empty, 50), "No matches found.");
}

#[test]
fn listings_put_directories_first() {
    let sorted = sort_entries(vec![entry("b.txt", false), entry("z", true), entry("a.txt", false), entry("c", true)]);
    let names: Vec<&str> = sorted.iter().map(|e| e.name.as_str()).collect();
    assert_eq!(names, vec!["c", "z", "a.txt", "b.txt"]);
}

#[test]
fn the_prompt_embeds_directory_and_listing() {
    let summary = working_dir_summary(Ok(vec![entry("docs", true), entry("a.md", false)]));
    assert_eq!(summary, "- docs/\n- a.md");
    assert_eq!(working_dir_summary(Ok(Vec::new())), "(empty directory)");
    let many: Vec<FileEntry> = (0..42).map(|i| entry(&format!("f{i}"), false)).collect();
    assert!(working_dir_summary(Ok(many)).ends_with("- f39\n- ... and 2 more entries"));
    let p = system_prompt(&Some("/p".to_string()), &summary);
    assert!(p.starts_with("You are Cowork, an AI co-worker"));
    assert!(p.contains("\n\nWorking directory: /p\n\n# WORKING DIRECTORY CONTENTS (top level, refreshed each turn)\n- docs/\n- a.md\n"));
    assert!(system_prompt(&None, "").contains("Working directory: (none selected)"));
}

#[test]
fn pdf_failures_are_refused_tool_calls() {
    assert_eq!(pdf_outcome(Ok("text".to_string())).unwrap(), "text");
    assert_eq!(refusal(pdf_outcome(Err("bad".to_string()))), "Failed to extract PDF text: bad");
    let extracted = pdf_extract::extract_text_from_mem(b"not a pdf").map_err(|e| e.to_string());
    assert!(refusal(pdf_outcome(extracted)).starts_with("Failed to extract PDF text: "));
}

#[test]
fn a_turn_needs_a_directory_and_an_answer() {
    match no_directory_outcome() {
        LlmOutcome::Error { message } => assert_eq!(message, "Please select a working directory first."),
        _ => panic!("expected an error"),
    }
    let pending = PendingToolCall {
        description: "Delete a".to_string(),
        tool_name: "delete_file".to_string(),
        arguments: JsonValue::Null,
        tool_call_id: Some("c9".to_string()),
        user_message: "rm a".to_string(),
    };
    match confirmation_start(&pending, false, true) {
        ConfirmStart::Finish(LlmOutcome::Complete { assistant_message, tool_results }) => {
            assert_eq!(assistant_message, "Operation cancelled.");
            assert!(tool_results.is_empty());
        }
        _ => panic!("expected a cancellation"),
    }
    match confirmation_start(&pending, true, false) {
        ConfirmStart::Finish(LlmOutcome::Error { message }) => assert_eq!(message, "No working directory set."),
        _ => panic!("expected an error"),
    }
    match confirmation_start(&pending, true, true) {
        ConfirmStart::Execute(call) => assert_eq!(call.name, "delete_file"),
        _ => panic!("expected the call to run"),
    }
    let conv = confirmed_transcript(Vec::new(), &pending, Err(AppError::Fs("gone".to_string())));
    assert_eq!(conv.len(), 1);
    assert_eq!(conv[0].role, "tool");
    assert_eq!(conv[0].content, "Error: Filesystem error: gone");
    assert_eq!(conv[0].tool_call_id.as_deref(), Some("c9"));
    let working = working_messages("sys".to_string(), &conv, Some(Message::user("next".to_string())));
    let roles: Vec<&str> = working.iter().map(|m| m.role.as_str()).collect();
    assert_eq!(roles, vec!["system", "tool", "user"]);
}

#[test]
fn an_exchange_answers_in_words() {
    let user = Message::user("hi".to_string());
    let (mut ex, step) = Exchange::start(
        vec![Message::system("sys".to_string()), Message::user("hi".to_string())],
        Vec::new(),
        Some(user),
        "hi".to_string(),
        false,
        ToolDisplayVerbosity::Default,
        false,
    );
    assert!(matches!(step, Step::Request(ref ms) if ms.len() == 2));
    match ex.on_reply(Ok(words("Hello!"))) {
        Step::Finish(LlmOutcome::Complete { assistant_message, tool_results }) => {
            assert_eq!(assistant_message, "Hello!");
            assert!(tool_results.is_empty());
        }
        _ => panic!("expected an answer"),
    }
    let conv = ex.into_conversation();
    let roles: Vec<&str> = conv.iter().map(|m| m.role.as_str()).collect();
    assert_eq!(roles, vec!["user", "assistant"]);
}

#[test]
fn an_exchange_runs_tools_then_answers() {
    let (mut ex, _) = Exchange::start(
        vec![Message::system("sys".to_string()), Message::user("list".to_string())],
        Vec::new(),
        Some(Message::user("list".to_string())),
        "list".to_string(),
        true,
        ToolDisplayVerbosity::Default,
        false,
    );
    let call = match ex.on_reply(Ok(call_msg("list_files"))) {
        Step::Dispatch(c) => c,
        _ => panic!("expected a dispatch"),
    };
    assert_eq!(call.name, "list_files");
    match ex.on_dispatched(Ok(completed(&call, "[]".to_string()))) {
        Step::Request(ms) => assert_eq!(ms.len(), 4),
        _ => panic!("expected another request"),
    }
    let notices = ex.take_notices();
    assert!(notices.iter().any(|n| matches!(n, Notice::IntermediateTool { name, .. } if name == "list_files")));
    match ex.on_reply(Ok(words("Nothing there."))) {
        Step::Finish(LlmOutcome::Complete { assistant_message, .. }) => assert_eq!(assistant_message, "Nothing there."),
        _ => panic!("expected an answer"),
    }
    let roles: Vec<String> = ex.into_conversation().iter().map(|m| m.role.clone()).collect();
    assert_eq!(roles, vec!["user", "assistant", "tool", "assistant"]);
}

#[test]
fn a_destructive_call_waits_for_confirmation() {
    let (mut ex, _) = Exchange::start(
        vec![Message::system("sys".to_string())],
        Vec::new(),
        Some(Message::user("delete a".to_string())),
        "delete a".to_string(),
        false,
        ToolDisplayVerbosity::Default,
        false,
    );
    let call = match ex.on_reply(Ok(call_msg("delete_file"))) {
        Step::Dispatch(c) => c,
        _ => panic!("expected a dispatch"),
    };
    match ex.on_dispatched(Ok(awaiting_confirmation(&call, "Delete a".to_string()))) {
        Step::Finish(LlmOutcome::PendingConfirmation { description, tool_name, user_message, tool_call_id, .. }) => {
            assert_eq!(description, "Delete a");
            assert_eq!(tool_name, "delete_file");
            assert_eq!(user_message, "delete a");
            assert_eq!(tool_call_id.as_deref(), Some("c1"));
        }
        _ => panic!("expected a confirmation"),
    }
}

#[test]
fn rounds_are_limited() {
    let (mut ex, _) = Exchange::start(
        vec![Message::system("sys".to_string())],
        Vec::new(),
        Some(Message::user("loop".to_string())),
        "loop".to_string(),
        false,
        ToolDisplayVerbosity::Default,
        false,
    );
    let mut finished = None;
    for _ in 0..(MAX_TOOL_ROUNDS + 1) {
        let call = match ex.on_reply(Ok(call_msg("list_files"))) {
            Step::Dispatch(c) => c,
            _ => panic!("expected a dispatch"),
        };
        match ex.on_dispatched(Ok(completed(&call, "[]".to_string()))) {
            Step::Request(_) => {}
            Step::Finish(o) => {
                finished = Some(o);
                break;
            }
            _ => panic!("unexpected step"),
        }
    }
    match finished {
        Some(LlmOutcome::Error { message }) => assert_eq!(
            message,
            "Maximum tool round limit reached (too many back-to-back tool calls)."
        ),
        _ => panic!("expected the round limit"),
    }
}
