use foxmayn_cowork::commands::{
    commands, match_commands, ollama_think_current, openrouter_model_list,
    openrouter_reasoning_current, parse_i64, picker, slash_command, split_command_text,
    SettingChange, SlashAction,
};
use foxmayn_cowork::config::{
    env_bool, preflight, Config, EnvSnapshot, Provider, ThinkingDisplay, ToolDisplayVerbosity,
    MISSING_KEY_TEXT,
};
use foxmayn_cowork::storage::{
    apply_saved_settings, i64_string, resume_message, sessions_message, sessions_picker,
    SessionSummary,
};
use foxmayn_cowork::types::{OllamaThink, OllamaThinkLevel, ReasoningEffort};

fn env(pairs: &[(&str, &str)]) -> EnvSnapshot {
    let get = |k: &str| pairs.iter().find(|(n, _)| *n == k).map(|(_, v)| v.to_string());
    EnvSnapshot {
        provider: get("PROVIDER"),
        model: get("MODEL"),
        openrouter_api_key: get("OPENROUTER_API_KEY"),
        ollama_base_url: get("OLLAMA_BASE_URL"),
        openrouter_base_url: get("OPENROUTER_BASE_URL"),
        openrouter_reasoning_effort: get("OPENROUTER_REASONING_EFFORT"),
        openrouter_reasoning_summary: get("OPENROUTER_REASONING_SUMMARY"),
        ollama_think: get("OLLAMA_THINK"),
        streaming: get("STREAMING"),
        skip_confirmations: get("SKIP_CONFIRMATIONS"),
        context_max_tokens: get("CONTEXT_MAX_TOKENS"),
        local_model_repo: get("LOCAL_MODEL_REPO"),
        local_model_file: get("LOCAL_MODEL_FILE"),
        local_model_path: get("LOCAL_MODEL_PATH"),
        local_context_tokens: get("LOCAL_CONTEXT_TOKENS"),
        local_gpu_layers: get("LOCAL_GPU_LAYERS"),
        local_threads: get("LOCAL_THREADS"),
        local_max_output_tokens: get("LOCAL_MAX_OUTPUT_TOKENS"),
        tool_display_verbosity: get("TOOL_DISPLAY_VERBOSITY"),
        thinking_display: get("THINKING_DISPLAY"),
    }
}

fn config(pairs: &[(&str, &str)]) -> Config {
    Config::from_env(&env(pairs))
}

fn info_text(a: &SlashAction) -> Option<String> {
    match a {
        SlashAction::Info(t) => Some(t.clone()),
        SlashAction::Apply { info, .. } => Some(info.clone()),
        _ => None,
    }
}

fn error_text(a: &SlashAction) -> Option<String> {
    match a {
        SlashAction::Error(t) => Some(t.clone()),
        _ => None,
    }
}

#[test]
fn the_command_list_and_its_completion() {
    let cmds = commands();
    assert_eq!(cmds.len(), 11);
    assert_eq!(cmds[0].name, "/clear");
    assert_eq!(cmds[6].static_options, vec!["off", "inline", "full"]);
    assert_eq!(match_commands("/s"), vec![4, 5, 9]);
    assert_eq!(match_commands("/"), (0..11).collect::<Vec<usize>>());
    assert!(match_commands("x").is_empty());
    assert_eq!(openrouter_model_list().len(), 8);
}

#[test]
fn environment_switches() {
    assert!(env_bool(&Some("YES".to_string()), false));
    assert!(!env_bool(&Some("off".to_string()), true));
    assert!(env_bool(&Some("maybe".to_string()), true));
    assert!(!env_bool(&None, false));
}

#[test]
fn configuration_defaults_and_overrides() {
    let c = config(&[]);
    assert_eq!(c.provider, Provider::OpenRouter);
    assert_eq!(c.context_max_tokens, 128000);
    let c = config(&[("PROVIDER", "ollama"), ("THINKING_DISPLAY", "full"), ("CONTEXT_MAX_TOKENS", "5000")]);
    assert_eq!(c.provider, Provider::Ollama);
    assert_eq!(c.thinking_display, ThinkingDisplay::Full);
    assert_eq!(c.context_max_tokens, 5000);
    let e = env(&[]);
    let c = config(&[]).with_overrides(None, Some("m".to_string()), Some(false), true, &e);
    assert_eq!(c.model, "m");
    assert!(!c.streaming_enabled);
    assert!(c.skip_confirmations);
}

#[test]
fn openrouter_needs_a_key() {
    let c = config(&[("PROVIDER", "openrouter")]);
    assert_eq!(preflight(&c).unwrap_err(), MISSING_KEY_TEXT);
    assert!(MISSING_KEY_TEXT.starts_with("Error: OPENROUTER_API_KEY is not set.\n\nEither:\n  1. Set it in"));
    let c = config(&[("PROVIDER", "openrouter"), ("OPENROUTER_API_KEY", "")]);
    assert!(preflight(&c).is_err());
    let c = config(&[("PROVIDER", "openrouter"), ("OPENROUTER_API_KEY", "sk-or-x")]);
    assert!(preflight(&c).is_ok());
    let c = config(&[("PROVIDER", "ollama")]);
    assert!(preflight(&c).is_ok());
}

#[test]
fn typed_commands_split_and_parse() {
    assert_eq!(split_command_text("/dir   some path  "), ("/dir".to_string(), "some path".to_string()));
    assert_eq!(split_command_text("/clear"), ("/clear".to_string(), String::new()));
    assert_eq!(parse_i64("42"), Some(42));
    assert_eq!(parse_i64("-7"), Some(-7));
    assert_eq!(parse_i64("+3"), Some(3));
    assert_eq!(parse_i64("9223372036854775808"), None);
    assert_eq!(parse_i64("12a"), None);
}

#[test]
fn slash_commands_decide_what_happens() {
    let c = config(&[("PROVIDER", "ollama")]);
    assert!(matches!(slash_command("/clear", &c), SlashAction::Clear));
    assert!(matches!(slash_command("/exit", &c), SlashAction::Exit));
    assert_eq!(error_text(&slash_command("/dir", &c)).unwrap(), "Usage: /dir <path>");
    match slash_command("/dir /tmp/x", &c) {
        SlashAction::ChangeDir(d) => assert_eq!(d, "/tmp/x"),
        _ => panic!("expected a directory change"),
    }
    assert!(matches!(slash_command("/model", &c), SlashAction::FetchOllamaModels));
    let a = slash_command("/model llama3", &c);
    assert_eq!(info_text(&a).unwrap(), "Model set to: llama3");
    match a {
        SlashAction::Apply { change: SettingChange::Model(m), persist: Some((k, v)), .. } => {
            assert_eq!(m, "llama3");
            assert_eq!((k.as_str(), v.as_str()), ("model", "llama3"));
        }
        _ => panic!("expected a setting"),
    }
    let a = slash_command("/skip-confirmations", &c);
    assert_eq!(info_text(&a).unwrap(), "Confirmations disabled (session only)");
    assert!(matches!(a, SlashAction::Apply { persist: None, .. }));
    assert_eq!(info_text(&slash_command("/streaming", &c)).unwrap(), "Streaming off");
    assert_eq!(
        error_text(&slash_command("/thinking loud", &c)).unwrap(),
        "Usage: /thinking <off|inline|full>"
    );
    assert_eq!(info_text(&slash_command("/thinking full", &c)).unwrap(), "Thinking display set to: full");
    match slash_command("/tool-verbosity", &c) {
        SlashAction::OpenPicker(p) => {
            assert_eq!(p.command, "/tool-verbosity");
            assert_eq!(p.selected, 0);
            assert_eq!(p.items[0].display, "default  (active)");
        }
        _ => panic!("expected a picker"),
    }
    assert!(matches!(slash_command("/sessions", &c), SlashAction::ListSessions));
    assert!(matches!(slash_command("/resume", &c), SlashAction::BrowseSessions));
    assert!(matches!(slash_command("/resume 12", &c), SlashAction::ResumeSession(12)));
    assert_eq!(error_text(&slash_command("/resume x", &c)).unwrap(), "Usage: /resume <session-id>");
    assert_eq!(error_text(&slash_command("/nope", &c)).unwrap(), "Unknown command: /nope");
}

#[test]
fn reasoning_commands_follow_the_provider() {
    let ollama = config(&[("PROVIDER", "ollama")]);
    assert_eq!(info_text(&slash_command("/reasoning off", &ollama)).unwrap(), "Ollama thinking disabled.");
    assert_eq!(info_text(&slash_command("/reasoning high", &ollama)).unwrap(), "Ollama think set to: high");
    assert_eq!(
        error_text(&slash_command("/reasoning xhigh", &ollama)).unwrap(),
        "Usage: /reasoning <off|low|medium|high>"
    );
    let or = config(&[("PROVIDER", "openrouter"), ("OPENROUTER_API_KEY", "k")]);
    assert_eq!(info_text(&slash_command("/reasoning xhigh", &or)).unwrap(), "OpenRouter reasoning set to: xhigh");
    assert_eq!(info_text(&slash_command("/reasoning off", &or)).unwrap(), "OpenRouter reasoning disabled.");
    let local = config(&[("PROVIDER", "local")]);
    assert_eq!(
        info_text(&slash_command("/reasoning", &local)).unwrap(),
        "Reasoning is not configurable for the local provider."
    );
}

#[test]
fn settings_apply_to_the_configuration() {
    let mut c = config(&[("PROVIDER", "ollama")]);
    c.apply_setting(SettingChange::Streaming(false));
    assert!(!c.streaming_enabled);
    c.apply_setting(SettingChange::Verbosity(ToolDisplayVerbosity::Full));
    assert_eq!(c.tool_display_verbosity, ToolDisplayVerbosity::Full);
    c.apply_setting(SettingChange::OllamaThink(Some(OllamaThink::Level(OllamaThinkLevel::Low))));
    assert_eq!(ollama_think_current(&c), "low");
    c.apply_setting(SettingChange::OllamaThink(Some(OllamaThink::OnOff(true))));
    assert_eq!(ollama_think_current(&c), "high");
    assert_eq!(openrouter_reasoning_current(&c), "off");
}

#[test]
fn saved_settings_are_restored_except_skip_confirmations() {
    let c = config(&[("PROVIDER", "ollama")]);
    let saved = vec![
        ("model".to_string(), "a".to_string()),
        ("streaming_enabled".to_string(), "false".to_string()),
        ("thinking_display".to_string(), "bogus".to_string()),
        ("skip_confirmations".to_string(), "true".to_string()),
        ("ollama_think".to_string(), "medium".to_string()),
        ("model".to_string(), "b".to_string()),
    ];
    let (restored, purge) = apply_saved_settings(c, saved);
    assert_eq!(restored.model, "b");
    assert!(!restored.streaming_enabled);
    assert_eq!(restored.thinking_display, ThinkingDisplay::Off);
    assert!(!restored.skip_confirmations);
    assert_eq!(restored.ollama_think, Some(OllamaThink::Level(OllamaThinkLevel::Medium)));
    assert!(purge);
    let (_, purge) = apply_saved_settings(config(&[]), Vec::new());
    assert!(!purge);
}

#[test]
fn openrouter_effort_names_round_trip() {
    let mut c = config(&[("PROVIDER", "openrouter")]);
    for (name, effort) in [("minimal", ReasoningEffort::Minimal), ("xhigh", ReasoningEffort::XHigh)] {
        match slash_command(&format!("/reasoning {name}"), &c) {
            SlashAction::Apply { change, .. } => {
                c.apply_setting(change);
                assert_eq!(c.openrouter_reasoning.unwrap().effort, Some(effort));
                assert_eq!(openrouter_reasoning_current(&c), name);
            }
            _ => panic!("expected a setting"),
        }
    }
}

#[test]
fn pickers_mark_the_option_in_use() {
    let opts = vec!["a".to_string(), "b".to_string(), "c".to_string()];
    let p = picker("/x", &opts, "c");
    assert_eq!(p.selected, 2);
    assert_eq!(p.items[2].display, "c  (active)");
    assert_eq!(p.items[0].display, "a");
    let p = picker("/x", &opts, "zzz");
    assert_eq!(p.selected, 0);
}

#[test]
fn session_listings() {
    let sessions = vec![
        SessionSummary { id: 3, started_at: 0, title: "Tidy docs".to_string() },
        SessionSummary { id: 1, started_at: 0, title: "First".to_string() },
    ];
    let stamps = vec!["2024-01-02 10:00".to_string(), "2024-01-01 09:00".to_string()];
    let (is_err, text) = sessions_message(&sessions, &stamps, true);
    assert!(!is_err);
    assert_eq!(
        text,
        "Recent sessions \u{2014} use /resume <id> to continue:\n[3]  2024-01-02 10:00  Tidy docs\n[1]  2024-01-01 09:00  First"
    );
    assert_eq!(sessions_message(&Vec::new(), &Vec::new(), false), (true, "No project open. Use /dir <path> first.".to_string()));
    assert_eq!(sessions_message(&Vec::new(), &Vec::new(), true), (false, "No sessions yet for this project.".to_string()));
    let p = sessions_picker(&sessions, &stamps);
    assert_eq!(p.command, "/resume");
    assert_eq!(p.items[1].value, "1");
    assert_eq!(p.items[0].display, "[3]  2024-01-02 10:00  Tidy docs");
    assert_eq!(resume_message(3, true), (false, "Session #3 resumed.".to_string()));
    assert_eq!(
        resume_message(9, false),
        (true, "Session #9 not found. Use /sessions to list available sessions.".to_string())
    );
    assert_eq!(i64_string(i64::MIN), i64::MIN.to_string());
    assert_eq!(i64_string(-5), "-5");
}

#[test]
fn ollama_think_is_read_only_for_ollama() {
    let ollama = |v: Option<&str>| {
        let mut pairs = vec![("PROVIDER", "ollama")];
        if let Some(v) = v {
            pairs.push(("OLLAMA_THINK", v));
        }
        config(&pairs).ollama_think
    };
    assert_eq!(ollama(None), Some(OllamaThink::Level(OllamaThinkLevel::Low)));
    assert_eq!(ollama(Some("Medium")), Some(OllamaThink::Level(OllamaThinkLevel::Medium)));
    assert_eq!(ollama(Some("TRUE")), Some(OllamaThink::OnOff(true)));
    assert_eq!(ollama(Some("off")), None);
    assert_eq!(ollama(Some("")), None);
    assert_eq!(ollama(Some("loud")), Some(OllamaThink::Level(OllamaThinkLevel::Low)));
    assert_eq!(config(&[("OLLAMA_THINK", "high")]).ollama_think, None);
}

#[test]
fn a_setting_changes_only_itself() {
    let before = config(&[("PROVIDER", "ollama"), ("STREAMING", "false"), ("MODEL", "m")]);
    let mut c = before.clone();
    match slash_command("/skip-confirmations", &c) {
        SlashAction::Apply { change, persist, info } => {
            assert!(persist.is_none());
            assert_eq!(info, "Confirmations disabled (session only)");
            c.apply_setting(change);
        }
        _ => panic!("expected a setting"),
    }
    assert!(c.skip_confirmations);
    assert_eq!(c.streaming_enabled, before.streaming_enabled);
    assert_eq!(c.model, before.model);
    assert_eq!(c.provider, before.provider);
    assert_eq!(c.ollama_think, before.ollama_think);
    assert_eq!(c.context_max_tokens, before.context_max_tokens);
    assert_eq!(c.local_model_repo, before.local_model_repo);
}

#[test]
fn overrides_keep_the_other_settings() {
    let e = env(&[("OLLAMA_THINK", "high"), ("LOCAL_GPU_LAYERS", "7"), ("LOCAL_MODEL_FILE", "f.gguf")]);
    let before = Config::from_env(&e);
    let c = before.clone().with_overrides(Some(Provider::Ollama), None, None, false, &e);
    assert_eq!(c.provider, Provider::Ollama);
    assert_eq!(c.ollama_think, Some(OllamaThink::Level(OllamaThinkLevel::High)));
    assert_eq!(c.openrouter_reasoning, None);
    assert_eq!(c.model, before.model);
    assert_eq!(c.local_gpu_layers, before.local_gpu_layers);
    assert_eq!(c.local_model_file, before.local_model_file);
    assert_eq!(c.local_threads, before.local_threads);
}
