use foxmayn_cowork::config::ThinkingDisplay;
use foxmayn_cowork::error::AppError;
use foxmayn_cowork::events::Followup;
use foxmayn_cowork::exchange::LlmOutcome;
use foxmayn_cowork::input::{Key, KeyAction, KeyCode};
use foxmayn_cowork::json::JsonValue;
use foxmayn_cowork::listing::FileEntry;
use foxmayn_cowork::state::{App, ChatRole, InputMode, Panel, PendingToolCall};
use foxmayn_cowork::types::{Message, StreamChunk};

fn key(code: KeyCode) -> Key {
    Key { code, ctrl: false, shift_or_alt: false }
}

fn ctrl(c: char) -> Key {
    Key { code: KeyCode::Char(c), ctrl: true, shift_or_alt: false }
}

fn entry(name: &str, path: &str, is_dir: bool) -> FileEntry {
    FileEntry { name: name.to_string(), path: path.to_string(), is_dir, size: 0 }
}

fn log(app: &App) -> Vec<(ChatRole, String)> {
    app.chat_messages.iter().map(|e| (e.role, e.content.clone())).collect()
}

fn pending() -> PendingToolCall {
    PendingToolCall {
        description: "Delete a.txt".to_string(),
        tool_name: "delete_file".to_string(),
        arguments: JsonValue::Null,
        tool_call_id: Some("c1".to_string()),
        user_message: "remove it".to_string(),
    }
}

#[test]
fn ctrl_c_quits_in_any_mode() {
    let mut app = App::new(ThinkingDisplay::Inline);
    app.input_mode = InputMode::Confirming;
    assert!(matches!(app.on_key(ctrl('c'), ""), KeyAction::Nothing));
    assert!(app.should_quit);
}

#[test]
fn answering_a_confirmation_hands_over_the_call() {
    let mut app = App::new(ThinkingDisplay::Inline);
    app.input_mode = InputMode::Confirming;
    app.pending_confirmation = Some(pending());
    match app.on_key(key(KeyCode::Char('Y')), "") {
        KeyAction::Confirm { pending, approved } => {
            assert!(approved);
            assert_eq!(pending.tool_name, "delete_file");
        }
        _ => panic!("expected an answer"),
    }
    assert!(app.is_loading);
    assert_eq!(app.input_mode, InputMode::Editing);
    assert!(app.pending_confirmation.is_none());

    let mut app = App::new(ThinkingDisplay::Inline);
    app.input_mode = InputMode::Confirming;
    app.pending_confirmation = Some(pending());
    assert!(matches!(app.on_key(key(KeyCode::Char('x')), ""), KeyAction::Nothing));
    assert_eq!(app.input_mode, InputMode::Confirming);
    match app.on_key(key(KeyCode::Esc), "") {
        KeyAction::Confirm { approved, .. } => assert!(!approved),
        _ => panic!("expected a refusal"),
    }
    assert!(!app.is_loading);
}

#[test]
fn enter_sends_trimmed_text_or_runs_a_command() {
    let mut app = App::new(ThinkingDisplay::Inline);
    match app.on_key(key(KeyCode::Enter), "  hello  ") {
        KeyAction::Send(t) => assert_eq!(t, "hello"),
        _ => panic!("expected a send"),
    }
    assert_eq!(log(&app), vec![(ChatRole::User, "hello".to_string())]);
    assert!(app.is_loading);
    // While loading nothing more is sent.
    assert!(matches!(app.on_key(key(KeyCode::Enter), "again"), KeyAction::Nothing));

    let mut app = App::new(ThinkingDisplay::Inline);
    match app.on_key(key(KeyCode::Enter), "/clear") {
        KeyAction::Command(c) => assert_eq!(c, "/clear"),
        _ => panic!("expected a command"),
    }
    assert!(app.chat_messages.is_empty());
    assert!(matches!(app.on_key(key(KeyCode::Enter), "   "), KeyAction::Nothing));
    let shifted = Key { code: KeyCode::Enter, ctrl: false, shift_or_alt: true };
    assert!(matches!(app.on_key(shifted, "x"), KeyAction::Edit));
}

#[test]
fn completions_follow_the_typed_command() {
    let mut app = App::new(ThinkingDisplay::Inline);
    app.update_slash_completions("/re");
    // "/reasoning" and "/resume", in list order.
    assert_eq!(app.slash_completions, vec![8, 10]);
    app.slash_select_next();
    assert_eq!(app.slash_selected, 1);
    app.slash_select_next();
    assert_eq!(app.slash_selected, 0);
    app.slash_select_prev();
    assert_eq!(app.slash_selected, 1);
    match app.on_key(key(KeyCode::Tab), "/re") {
        KeyAction::SetInput(t) => assert_eq!(t, "/resume "),
        _ => panic!("expected a completion"),
    }
    assert!(app.slash_completions.is_empty());
    app.update_slash_completions("/dir x");
    assert!(app.slash_completions.is_empty());
    app.update_slash_completions("hello");
    assert!(app.slash_completions.is_empty());
}

#[test]
fn enter_on_a_completion_runs_or_completes_it() {
    let mut app = App::new(ThinkingDisplay::Inline);
    app.update_slash_completions("/cl");
    match app.on_key(key(KeyCode::Enter), "/cl") {
        KeyAction::Command(c) => assert_eq!(c, "/clear"),
        _ => panic!("expected the command"),
    }
    app.update_slash_completions("/di");
    match app.on_key(key(KeyCode::Enter), "/di") {
        KeyAction::SetInput(t) => assert_eq!(t, "/dir "),
        _ => panic!("expected a completion"),
    }
    app.update_slash_completions("/mo");
    match app.on_key(key(KeyCode::Enter), "/mo") {
        KeyAction::Command(c) => assert_eq!(c, "/model"),
        _ => panic!("expected the picker command"),
    }
    app.update_slash_completions("/st");
    assert!(matches!(app.on_key(key(KeyCode::Esc), ""), KeyAction::Nothing));
    assert!(app.slash_completions.is_empty());
}

#[test]
fn tab_switches_panels_and_arrows_scroll() {
    let mut app = App::new(ThinkingDisplay::Inline);
    app.on_key(key(KeyCode::Up), "");
    assert_eq!(app.chat_scroll, 3);
    app.on_key(key(KeyCode::Tab), "");
    assert_eq!(app.focused_panel, Panel::FileTree);
    app.on_wheel(false);
    assert_eq!(app.file_tree_scroll, 0);
    app.on_key(key(KeyCode::Tab), "");
    assert_eq!(app.focused_panel, Panel::Chat);
    app.on_wheel(false);
    assert_eq!(app.chat_scroll, 0);
    assert!(matches!(app.on_key(key(KeyCode::Char('a')), ""), KeyAction::Edit));
}

#[test]
fn the_tree_expands_collapses_and_remembers() {
    let mut app = App::new(ThinkingDisplay::Inline);
    let dirs = app.on_tree_loaded(Ok(vec![entry("src", "/p/src", true), entry("a.txt", "/p/a.txt", false)]));
    assert!(dirs.is_empty());
    assert_eq!(app.file_tree.len(), 2);
    app.focused_panel = Panel::FileTree;
    match app.on_key(key(KeyCode::Enter), "") {
        KeyAction::LoadSubdir(p) => assert_eq!(p, "/p/src"),
        _ => panic!("expected a listing request"),
    }
    let more = app.on_subdir_loaded("/p/src".to_string(), Ok(vec![entry("lib.rs", "/p/src/lib.rs", false)]));
    assert!(more.is_empty());
    let paths: Vec<&str> = app.file_tree.iter().map(|e| e.path.as_str()).collect();
    assert_eq!(paths, vec!["/p/src", "/p/src/lib.rs", "/p/a.txt"]);
    assert_eq!(app.file_tree[1].depth, 1);

    // A reload keeps the expansion: the directory is expanded again and listed again.
    app.file_tree_scroll = 1;
    app.prepare_refresh();
    let again = app.on_tree_loaded(Ok(vec![entry("src", "/p/src", true), entry("a.txt", "/p/a.txt", false)]));
    assert_eq!(again, vec!["/p/src".to_string()]);
    assert!(app.file_tree[0].expanded);
    let _ = app.on_subdir_loaded("/p/src".to_string(), Ok(vec![entry("lib.rs", "/p/src/lib.rs", false)]));
    assert_eq!(app.file_tree_scroll, 1);

    // Left on a child jumps to its directory; Left there collapses it.
    app.on_key(key(KeyCode::Left), "");
    assert_eq!(app.file_tree_scroll, 0);
    app.on_key(key(KeyCode::Left), "");
    assert_eq!(app.file_tree.len(), 2);
    assert!(!app.file_tree[0].expanded);
}

#[test]
fn a_failed_listing_is_logged() {
    let mut app = App::new(ThinkingDisplay::Inline);
    let dirs = app.on_tree_loaded(Err(AppError::Fs("denied".to_string())));
    assert!(dirs.is_empty());
    assert_eq!(
        log(&app),
        vec![(ChatRole::Error, "Failed to load directory: Filesystem error: denied".to_string())]
    );
}

#[test]
fn stale_reports_are_dropped() {
    let mut app = App::new(ThinkingDisplay::Full);
    let first = app.allocate_request_id();
    let second = app.allocate_request_id();
    assert_eq!(second, first + 1);
    assert!(!app.on_stream_chunk(first, &StreamChunk::ContentDelta("old".to_string())));
    assert!(app.streaming_text.is_none());
    assert!(app.on_stream_chunk(second, &StreamChunk::ContentDelta("new".to_string())));
    assert_eq!(app.streaming_text.as_deref(), Some("new"));
    let outcome = LlmOutcome::Error { message: "late".to_string() };
    assert!(matches!(app.on_exchange_done(Some(first), false, outcome, Vec::new()), Followup::Stale));
    assert!(app.chat_messages.is_empty());
}

#[test]
fn a_completed_exchange_is_applied_and_reloads_the_tree() {
    let mut app = App::new(ThinkingDisplay::Full);
    app.set_working_dir("/p".to_string());
    let id = app.allocate_request_id();
    app.request_in_flight = true;
    app.on_stream_chunk(id, &StreamChunk::ThinkingDelta("  pondering ".to_string()));
    let conv = vec![Message::user("hi".to_string())];
    let outcome = LlmOutcome::Complete {
        assistant_message: "Done.".to_string(),
        tool_results: vec!["[read_file] a.txt".to_string()],
    };
    match app.on_exchange_done(Some(id), true, outcome, conv) {
        Followup::Completed { reload } => assert_eq!(reload.as_deref(), Some("/p")),
        _ => panic!("expected a completed exchange"),
    }
    assert_eq!(
        log(&app),
        vec![
            (ChatRole::Thinking, "pondering".to_string()),
            (ChatRole::Assistant, "Done.".to_string()),
            (ChatRole::Tool, "[read_file] a.txt".to_string()),
        ]
    );
    assert!(!app.request_in_flight);
    assert!(app.active_request_id.is_none());
    assert_eq!(app.conversation.len(), 1);
}

#[test]
fn a_pending_confirmation_waits_for_the_user() {
    let mut app = App::new(ThinkingDisplay::Inline);
    let outcome = LlmOutcome::PendingConfirmation {
        description: "Delete a.txt".to_string(),
        tool_name: "delete_file".to_string(),
        arguments: JsonValue::Null,
        tool_call_id: None,
        user_message: "rm".to_string(),
    };
    assert!(matches!(app.on_exchange_done(None, false, outcome, Vec::new()), Followup::Applied));
    assert_eq!(app.input_mode, InputMode::Confirming);
    assert_eq!(app.pending_confirmation.as_ref().unwrap().description, "Delete a.txt");
}

#[test]
fn intermediate_reports_become_log_entries() {
    let mut app = App::new(ThinkingDisplay::Inline);
    let id = app.allocate_request_id();
    app.streaming_text = Some("partial".to_string());
    assert!(app.on_intermediate_assistant(id, "Let me look.".to_string()));
    assert!(app.streaming_text.is_none());
    assert!(app.on_intermediate_assistant(id, "   ".to_string()));
    assert!(app.on_intermediate_tool(id, "list_files", String::new()));
    assert!(app.on_intermediate_tool(id, "read_file", "[read_file] x".to_string()));
    assert!(!app.on_intermediate_tool(id + 1, "read_file", "ignored".to_string()));
    assert_eq!(
        log(&app),
        vec![
            (ChatRole::Assistant, "Let me look.".to_string()),
            (ChatRole::Tool, "[list_files]".to_string()),
            (ChatRole::Tool, "[read_file] x".to_string()),
        ]
    );
}

#[test]
fn model_lists_open_a_picker_or_log_an_error() {
    let mut app = App::new(ThinkingDisplay::Inline);
    app.on_models_loaded(Vec::new(), "x");
    assert_eq!(
        log(&app),
        vec![(ChatRole::Error, "Could not fetch models from Ollama. Is it running?".to_string())]
    );
    app.on_models_loaded(vec!["a".to_string(), "b".to_string()], "b");
    let p = app.slash_picker.as_ref().unwrap();
    assert_eq!(p.command, "/model");
    assert_eq!(p.selected, 1);
    assert_eq!(p.items[1].display, "b  (active)");
    match app.on_key(key(KeyCode::Enter), "") {
        KeyAction::Command(c) => assert_eq!(c, "/model b"),
        _ => panic!("expected the chosen model"),
    }
    assert!(app.slash_picker.is_none());
}

#[test]
fn escape_cancels_a_request_in_flight() {
    let mut app = App::new(ThinkingDisplay::Inline);
    app.begin_send("hi");
    app.request_in_flight = true;
    app.on_key(key(KeyCode::Esc), "");
    assert!(!app.is_loading);
    assert_eq!(log(&app).last().unwrap(), &(ChatRole::Warning, "Request cancelled.".to_string()));
}

#[test]
fn ctrl_l_clears_the_conversation() {
    let mut app = App::new(ThinkingDisplay::Inline);
    app.push_info("note");
    app.push_error("oops");
    app.on_context_warning("big".to_string());
    assert_eq!(app.chat_messages.len(), 3);
    app.on_key(ctrl('l'), "");
    assert!(app.chat_messages.is_empty());
}
