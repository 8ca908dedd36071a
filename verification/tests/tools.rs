use foxmayn_cowork::agent::{
    context_refusal, estimate_tokens, format_tool_error, generate_tool_call_id,
    last_user_for_pending,
};
use foxmayn_cowork::error::AppError;
use foxmayn_cowork::json::JsonValue;
use foxmayn_cowork::tools::args::{extract_bool, extract_rename_operations, extract_str, extract_str_array};
use foxmayn_cowork::tools::describe::{
    brief_action, build_description, preview_paths, preview_renames, truncate_for_display,
};
use foxmayn_cowork::paths::{canonical_base, contain_path};
use foxmayn_cowork::probe::{probe_step, probe_tool_message, ProbeStep};
use foxmayn_cowork::tools::dispatch::{dispatch_step, ConfirmStep, DispatchStep};
use foxmayn_cowork::tools::plan::{is_destructive, plan_tool, FsOp};
use foxmayn_cowork::MAX_TOOL_ROUNDS;
use foxmayn_cowork::tools::schema::tool_definitions;
use foxmayn_cowork::types::{FunctionCall, Message, ToolCall};

fn obj(entries: Vec<(&str, JsonValue)>) -> JsonValue {
    JsonValue::Object(entries.into_iter().map(|(k, v)| (k.to_string(), v)).collect())
}

fn s(t: &str) -> JsonValue {
    JsonValue::Str(t.to_string())
}

fn call(name: &str, args: JsonValue) -> FunctionCall {
    FunctionCall { name: name.to_string(), arguments: args }
}

fn assistant(text: &str) -> Message {
    Message { role: "assistant".to_string(), content: text.to_string(), tool_calls: None, name: None, tool_call_id: None }
}

fn base() -> String {
    std::path::Path::new(".").canonicalize().unwrap().to_string_lossy().into_owned()
}

#[test]
fn truncation_flattens_and_caps() {
    assert_eq!(truncate_for_display("a\nb\tc", 10), "a\u{21b5}b c");
    assert_eq!(truncate_for_display("abcdef", 4), "abc\u{2026}");
    assert_eq!(truncate_for_display("abcd", 4), "abcd");
    assert_eq!(truncate_for_display("abc", 0), "\u{2026}");
}

#[test]
fn previews_list_a_few_items_and_count_the_rest() {
    let paths = vec!["a".to_string(), "b".to_string(), "c".to_string()];
    assert_eq!(preview_paths(&paths, 2), "- a\n- b\n- ... and 1 more");
    assert_eq!(preview_paths(&paths, 5), "- a\n- b\n- c");
    let ops = vec![("x".to_string(), "y".to_string())];
    assert_eq!(preview_renames(&ops, 5), "- x \u{2192} y");
}

#[test]
fn brief_actions_name_what_a_tool_did() {
    assert_eq!(brief_action("read_pdf"), "Read PDF");
    assert_eq!(brief_action("rename_matching"), "Renamed matching files");
    assert_eq!(brief_action("no_such_tool"), "Ran tool");
}

#[test]
fn descriptions_read_their_arguments() {
    assert_eq!(build_description(&call("read_file", obj(vec![("path", s("a.md"))]))), "Read file a.md");
    assert_eq!(build_description(&call("read_file", obj(vec![]))), "Read file ?");
    assert_eq!(
        build_description(&call(
            "rename_file",
            obj(vec![("old_path", s("a")), ("new_path", s("b"))])
        )),
        "Rename a \u{2192} b"
    );
    assert_eq!(
        build_description(&call(
            "delete_many",
            obj(vec![("paths", JsonValue::Array(vec![s("a"), s("b")]))])
        )),
        "Delete 2 item(s)"
    );
    assert_eq!(
        build_description(&call(
            "delete_matching",
            obj(vec![("filename_regex", s("\\.md$")), ("path", s("docs"))])
        )),
        "Delete files matching /\\.md$/ in docs"
    );
}

#[test]
fn the_tool_list_offers_sixteen_tools() {
    let tools = tool_definitions();
    assert_eq!(tools.len(), 16);
    let names: Vec<&str> = tools.iter().map(|t| t.function.name.as_str()).collect();
    assert!(names.contains(&"patch_file"));
    assert!(names.contains(&"search_in_files"));
    for t in &tools {
        assert_eq!(t.kind, "function");
        assert!(!t.function.description.is_empty());
    }
}

#[test]
fn destructive_tools_are_known() {
    for name in ["edit_file", "delete_file", "delete_many", "rename_file", "rename_many", "delete_matching", "rename_matching", "patch_file"] {
        assert!(is_destructive(name), "{name}");
    }
    for name in ["list_files", "read_file", "create_file", "find_files"] {
        assert!(!is_destructive(name), "{name}");
    }
}

#[test]
fn tool_errors_carry_a_hint() {
    let e = format_tool_error("Path '../x' contains '..' components which are not allowed");
    assert!(e.starts_with("Error: Path '../x'"));
    assert!(e.contains("Hint: paths must be relative"));
    let e = format_tool_error("File already exists: a.txt");
    assert!(e.contains("Hint: the destination is occupied"));
    let e = format_tool_error("something odd");
    assert!(e.ends_with("Hint: review the tool description and arguments, then either retry with corrected input or report the issue to the user."));
}

#[test]
fn tool_call_ids_are_padded_hex() {
    assert_eq!(generate_tool_call_id(0), "ollama_call_00000000");
    assert_eq!(generate_tool_call_id(255), "ollama_call_000000ff");
    assert_eq!(generate_tool_call_id(0x1_0000_0000), "ollama_call_100000000");
}

#[test]
fn token_estimates_count_four_bytes_a_token() {
    let msgs = vec![Message::user("hello world!".to_string())];
    // 12 bytes of content and 4 of role: 16 bytes.
    assert_eq!(estimate_tokens(&msgs), 4);
    assert_eq!(estimate_tokens(&[]), 0);
}

#[test]
fn full_conversations_are_refused() {
    assert!(context_refusal(10, 0).is_none());
    assert!(context_refusal(99, 100).is_none());
    assert_eq!(
        context_refusal(120, 100).unwrap(),
        "Conversation is too long (~120 tokens, limit 100). Press Ctrl+L to clear and start fresh."
    );
}

#[test]
fn pending_turns_fall_back_to_the_last_user_message() {
    let conv = vec![
        Message::user("first".to_string()),
        Message::system("sys".to_string()),
        Message::user("second".to_string()),
    ];
    assert_eq!(last_user_for_pending("given", &conv), "given");
    assert_eq!(last_user_for_pending("", &conv), "second");
    assert_eq!(last_user_for_pending("", &[]), "");
}

#[test]
fn arguments_are_read_with_their_rules() {
    let args = obj(vec![
        ("path", s("a")),
        ("recursive", JsonValue::Bool(true)),
        ("paths", JsonValue::Array(vec![s("x"), s("y")])),
        ("operations", JsonValue::Array(vec![obj(vec![("old_path", s("o")), ("new_path", s("n"))])])),
    ]);
    assert_eq!(extract_str(&args, "path").unwrap(), "a");
    match extract_str(&args, "content") {
        Err(AppError::ToolValidation(m)) => assert_eq!(m, "Missing required argument 'content'"),
        _ => panic!("expected a refusal"),
    }
    assert!(extract_bool(&args, "recursive"));
    assert!(!extract_bool(&args, "path"));
    assert_eq!(extract_str_array(&args, "paths").unwrap(), vec!["x".to_string(), "y".to_string()]);
    assert_eq!(extract_rename_operations(&args).unwrap(), vec![("o".to_string(), "n".to_string())]);
}

#[test]
fn planning_checks_paths_before_anything_runs() {
    let b = base();
    match plan_tool(&call("read_file", obj(vec![("path", s("notes.md"))])), &b) {
        Ok(FsOp::ReadFile { path }) => assert_eq!(path, format!("{b}/notes.md")),
        _ => panic!("expected a read"),
    }
    match plan_tool(&call("read_file", obj(vec![("path", s("../notes.md"))])), &b) {
        Err(AppError::ToolValidation(m)) => {
            assert_eq!(m, "Path '../notes.md' contains '..' components which are not allowed")
        }
        _ => panic!("expected a refusal"),
    }
    match plan_tool(&call("create_file", obj(vec![("path", s("a"))])), &b) {
        Err(AppError::ToolValidation(m)) => assert_eq!(m, "Missing required argument 'content'"),
        _ => panic!("expected a refusal"),
    }
    assert!(plan_tool(&call("format_disk", obj(vec![])), &b).is_err());
}

#[test]
fn containment_is_relative_to_the_canonical_base() {
    let b = base();
    assert_eq!(canonical_base(".").unwrap(), b);
    match canonical_base("/no/such/working/dir/anywhere") {
        Err(AppError::ToolValidation(m)) => assert_eq!(m, "Working directory not accessible"),
        _ => panic!("expected a refusal"),
    }
    assert_eq!(contain_path("no_such_file.txt", &b).unwrap(), format!("{b}/no_such_file.txt"));
    assert_eq!(contain_path("Cargo.toml", &b).unwrap(), format!("{b}/Cargo.toml"));
    match contain_path("/no/such/outside/path", &b) {
        Err(AppError::ToolValidation(m)) => {
            assert_eq!(m, "Path '/no/such/outside/path' is outside the working directory")
        }
        _ => panic!("expected a refusal"),
    }
    assert!(contain_path("/etc", &b).is_err());
}

#[test]
fn destructive_calls_are_asked_about_and_others_run() {
    let b = base();
    match dispatch_step(&call("delete_file", obj(vec![("path", s("a.md"))])), &b) {
        Ok(DispatchStep::Confirm(ConfirmStep::Ask(d))) => {
            assert_eq!(d, build_description(&call("delete_file", obj(vec![("path", s("a.md"))]))))
        }
        _ => panic!("expected a question"),
    }
    match dispatch_step(&call("read_file", obj(vec![("path", s("a.md"))])), &b) {
        Ok(DispatchStep::Run(FsOp::ReadFile { path })) => assert_eq!(path, format!("{b}/a.md")),
        _ => panic!("expected a read"),
    }
    match dispatch_step(&call("delete_matching", obj(vec![("path", s(".")), ("filename_regex", s("x"))])), &b) {
        Ok(DispatchStep::Confirm(ConfirmStep::Walk(FsOp::DeleteMatching { .. }))) => {}
        _ => panic!("expected a walk"),
    }
    assert!(dispatch_step(&call("read_file", obj(vec![("path", s("/no/such/outside"))])), &b).is_err());
}

#[test]
fn the_probe_runs_calls_until_a_reply_has_none() {
    let empty = assistant("  ");
    match probe_step(1, &empty) {
        ProbeStep::Done { warn_empty } => assert!(warn_empty),
        _ => panic!("expected the end"),
    }
    match probe_step(1, &assistant("done")) {
        ProbeStep::Done { warn_empty } => assert!(!warn_empty),
        _ => panic!("expected the end"),
    }
    let tc = ToolCall {
        id: Some("c1".to_string()),
        function: FunctionCall { name: "list_files".to_string(), arguments: obj(vec![("path", s("."))]) },
    };
    let mut reply = assistant("");
    reply.tool_calls = Some(vec![tc.duplicate()]);
    match probe_step(3, &reply) {
        ProbeStep::Run { calls, last } => {
            assert_eq!(calls.len(), 1);
            assert_eq!(calls[0].function.name, "list_files");
            assert!(!last);
        }
        _ => panic!("expected calls"),
    }
    match probe_step(MAX_TOOL_ROUNDS, &reply) {
        ProbeStep::Run { last, .. } => assert!(last),
        _ => panic!("expected calls"),
    }
    let ok = probe_tool_message(&tc, Ok("out".to_string()));
    assert_eq!((ok.role.as_str(), ok.content.as_str()), ("tool", "out"));
    assert_eq!(ok.name.as_deref(), Some("list_files"));
    assert_eq!(ok.tool_call_id.as_deref(), Some("c1"));
    let err = probe_tool_message(&tc, Err(AppError::ToolValidation("bad".to_string())));
    assert_eq!(err.content, format!("Error: {}", AppError::ToolValidation("bad".to_string()).message()));
}
