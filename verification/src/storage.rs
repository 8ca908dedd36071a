//! What is kept between launches: the settings changed by commands, restored over the
//! configuration read from the environment, and the summaries of past sessions.
use vstd::prelude::*;

use crate::commands::think_parsed;
use crate::config::{thinking_of, verbosity_of, Config};
use crate::types::{effort_of, normalized, OllamaThink, ReasoningEffort, RequestReasoning};
use crate::commands::{SlashPicker, SlashPickerItem};
use crate::text::{concat3, decimal, decimal_string, join, join_with, push_decimal, str_eq, views_of};

verus! {

/// One past session of a project.
pub struct SessionSummary {
    pub id: i64,
    /// Seconds since the Unix epoch.
    pub started_at: i64,
    pub title: String,
}

/// One saved setting applied over `c`. Unknown keys, and values that do not parse, leave
/// it unchanged; `skip_confirmations` is never restored.
pub open spec fn with_setting(c: Config, key: Seq<char>, value: String) -> Config {
    if key == "model"@ {
        Config { model: value, ..c }
    } else if key == "streaming_enabled"@ {
        Config { streaming_enabled: value@ == "true"@, ..c }
    } else if key == "thinking_display"@ {
        match thinking_of(normalized(value@)) {
            Some(t) => Config { thinking_display: t, ..c },
            None => c,
        }
    } else if key == "tool_display_verbosity"@ {
        match verbosity_of(normalized(value@)) {
            Some(v) => Config { tool_display_verbosity: v, ..c },
            None => c,
        }
    } else if key == "openrouter_reasoning"@ {
        if value@ == "off"@ {
            Config { openrouter_reasoning: None, ..c }
        } else {
            match effort_of(normalized(value@)) {
                Some(e) => Config {
                    openrouter_reasoning: Some(
                        RequestReasoning {
                            effort: Some(e),
                            summary: match c.openrouter_reasoning {
                                Some(r) => r.summary,
                                None => None,
                            },
                        },
                    ),
                    ..c
                },
                None => c,
            }
        }
    } else if key == "ollama_think"@ {
        if value@ == "off"@ {
            Config { ollama_think: None, ..c }
        } else {
            match think_parsed(value@) {
                Some(t) => Config { ollama_think: Some(t), ..c },
                None => c,
            }
        }
    } else {
        c
    }
}

/// The saved settings applied in order over `c`; a later value wins.
pub open spec fn with_settings(c: Config, settings: Seq<(String, String)>) -> Config
    decreases settings.len(),
{
    if settings.len() == 0 {
        c
    } else {
        let before = with_settings(c, settings.drop_last());
        with_setting(before, settings.last().0@, settings.last().1)
    }
}

/// A stale `skip_confirmations` entry is among the settings.
pub open spec fn has_stale_skip(settings: Seq<(String, String)>) -> bool {
    exists|i: int| 0 <= i < settings.len() && (#[trigger] settings[i]).0@ == "skip_confirmations"@
}

fn apply_one(config: &mut Config, key: &str, value: String)
    ensures
        *final(config) == with_setting(*old(config), key@, value),
{
    if str_eq(key, "model") {
        config.model = value;
    } else if str_eq(key, "streaming_enabled") {
        config.streaming_enabled = str_eq(value.as_str(), "true");
    } else if str_eq(key, "thinking_display") {
        if let Ok(t) = crate::config::ThinkingDisplay::parse(value.as_str()) {
            config.thinking_display = t;
        }
    } else if str_eq(key, "tool_display_verbosity") {
        if let Ok(v) = crate::config::ToolDisplayVerbosity::parse(value.as_str()) {
            config.tool_display_verbosity = v;
        }
    } else if str_eq(key, "openrouter_reasoning") {
        if str_eq(value.as_str(), "off") {
            config.openrouter_reasoning = None;
        } else if let Ok(effort) = ReasoningEffort::parse(value.as_str()) {
            let summary = match config.openrouter_reasoning {
                Some(r) => r.summary,
                None => None,
            };
            config.openrouter_reasoning = Some(RequestReasoning { effort: Some(effort), summary });
        }
    } else if str_eq(key, "ollama_think") {
        if str_eq(value.as_str(), "off") {
            config.ollama_think = None;
        } else if let Ok(t) = OllamaThink::parse(value.as_str()) {
            config.ollama_think = Some(t);
        }
    }
}

/// Applies the saved settings over a configuration read from the environment and the
/// command line; saved values win, so changes made by commands are restored on the next
/// launch. Also tells whether a stale `skip_confirmations` entry must be purged (it is
/// never restored: confirmations are always on at launch).
pub fn apply_saved_settings(config: Config, settings: Vec<(String, String)>) -> (r: (Config, bool))
    ensures
        r.0 == with_settings(config, settings@),
        r.1 == has_stale_skip(settings@),
{
    let mut config = config;
    let mut rest = settings;
    let ghost all = rest@;
    let ghost start = config;
    let mut purge = false;
    let mut i: usize = 0;
    assert(all.len() == rest.len());
    assert(all.take(0) =~= Seq::<(String, String)>::empty());
    while rest.len() > 0
        invariant
            0 <= i <= all.len(),
            all.len() <= usize::MAX,
            rest.len() + i == all.len(),
            rest@ == all.subrange(i as int, all.len() as int),
            config == with_settings(start, all.take(i as int)),
            purge == has_stale_skip(all.take(i as int)),
        decreases rest.len(),
    {
        let (key, value) = rest.remove(0);
        assert((key, value) == all[i as int]);
        assert(all.take(i + 1).drop_last() =~= all.take(i as int));
        assert(all.take(i + 1).last() == all[i as int]);
        if str_eq(key.as_str(), "skip_confirmations") {
            purge = true;
            assert(all.take(i + 1)[i as int].0@ == "skip_confirmations"@);
        }
        proof {
            if has_stale_skip(all.take(i + 1)) && key@ != "skip_confirmations"@ {
                let k = choose|k: int|
                    0 <= k < i + 1 && (#[trigger] all.take(i + 1)[k]).0@ == "skip_confirmations"@;
                assert(all.take(i as int)[k] == all.take(i + 1)[k]);
            }
            if has_stale_skip(all.take(i as int)) {
                let k = choose|k: int|
                    0 <= k < i && (#[trigger] all.take(i as int)[k]).0@ == "skip_confirmations"@;
                assert(all.take(i + 1)[k] == all.take(i as int)[k]);
            }
        }
        apply_one(&mut config, key.as_str(), value);
        i += 1;
        assert(rest@ =~= all.subrange(i as int, all.len() as int));
    }
    assert(all.take(i as int) =~= all);
    (config, purge)
}


// ── Session listings ──────────────────────────────────────────────────────────

/// `i64::to_string`.
pub open spec fn signed_decimal(i: int) -> Seq<char> {
    if i < 0 {
        "-"@ + decimal((-i) as nat)
    } else {
        decimal(i as nat)
    }
}

pub fn i64_string(i: i64) -> (r: String)
    ensures
        r@ == signed_decimal(i as int),
{
    if i < 0 {
        let m: u64 = ((-(i + 1)) as u64) + 1;
        let mut out = String::from_str("-");
        proof {
            reveal_strlit("-");
        }
        push_decimal(m, &mut out);
        out
    } else {
        decimal_string(i as u64)
    }
}

/// The line that shows a session: its id, when it started, and its title.
pub open spec fn session_line(id: i64, stamp: Seq<char>, title: Seq<char>) -> Seq<char> {
    "["@ + signed_decimal(id as int) + "]  "@ + stamp + "  "@ + title
}

fn session_text(s: &SessionSummary, stamp: &str) -> (r: String)
    ensures
        r@ == session_line(s.id, stamp@, s.title@),
{
    let mut out = String::from_str("[");
    let id = i64_string(s.id);
    out.append(id.as_str());
    out.append("]  ");
    out.append(stamp);
    out.append("  ");
    out.append(s.title.as_str());
    out
}

pub open spec fn no_project_text() -> Seq<char> {
    "No project open. Use /dir <path> first."@
}

pub open spec fn no_sessions_text() -> Seq<char> {
    "No sessions yet for this project."@
}

pub open spec fn sessions_heading() -> Seq<char> {
    "Recent sessions \u{2014} use /resume <id> to continue:"@
}

/// The lines of `sessions`, each with its start time from `stamps`.
pub open spec fn session_lines(sessions: Seq<SessionSummary>, stamps: Seq<String>) -> Seq<Seq<char>> {
    Seq::new(sessions.len(), |i: int| session_line(sessions[i].id, stamps[i]@, sessions[i].title@))
}

/// What `/sessions` logs: the sessions under a heading, or why there are none (an error
/// when no project is open). Returns whether it is an error, and the text.
pub fn sessions_message(sessions: &Vec<SessionSummary>, stamps: &Vec<String>, project_open: bool) -> (r: (
    bool,
    String,
))
    requires
        stamps.len() == sessions.len(),
    ensures
        sessions.len() == 0 && !project_open ==> r.0 && r.1@ == no_project_text(),
        sessions.len() == 0 && project_open ==> !r.0 && r.1@ == no_sessions_text(),
        sessions.len() > 0 ==> !r.0 && r.1@ == join_with(
            seq![sessions_heading()] + session_lines(sessions@, stamps@),
            "\n"@,
        ),
{
    if sessions.len() == 0 {
        if !project_open {
            return (true, String::from_str("No project open. Use /dir <path> first."));
        }
        return (false, String::from_str("No sessions yet for this project."));
    }
    let mut lines: Vec<String> = Vec::new();
    lines.push(String::from_str("Recent sessions \u{2014} use /resume <id> to continue:"));
    let mut i: usize = 0;
    while i < sessions.len()
        invariant
            0 <= i <= sessions.len(),
            stamps.len() == sessions.len(),
            views_of(lines@) == seq![sessions_heading()] + session_lines(sessions@, stamps@).take(i as int),
        decreases sessions.len() - i,
    {
        let line = session_text(&sessions[i], stamps[i].as_str());
        let ghost before = views_of(lines@);
        lines.push(line);
        assert(views_of(lines@) =~= before.push(line@));
        assert(session_lines(sessions@, stamps@).take(i + 1) =~= session_lines(sessions@, stamps@).take(
            i as int,
        ).push(session_lines(sessions@, stamps@)[i as int]));
        i += 1;
    }
    assert(session_lines(sessions@, stamps@).take(sessions.len() as int) =~= session_lines(sessions@, stamps@));
    (false, join(&lines, "\n"))
}

/// The picker `/resume` opens: one item per session, shown by its line and chosen by
/// its id; the first highlighted.
pub fn sessions_picker(sessions: &Vec<SessionSummary>, stamps: &Vec<String>) -> (r: SlashPicker)
    requires
        stamps.len() == sessions.len(),
    ensures
        r.command@ == "/resume"@,
        r.selected == 0,
        r.items.len() == sessions.len(),
        forall|i: int|
            0 <= i < sessions.len() ==> (#[trigger] r.items@[i]).display@ == session_line(
                sessions@[i].id,
                stamps@[i]@,
                sessions@[i].title@,
            ) && r.items@[i].value@ == signed_decimal(sessions@[i].id as int),
{
    let mut items: Vec<SlashPickerItem> = Vec::new();
    let mut i: usize = 0;
    while i < sessions.len()
        invariant
            0 <= i <= sessions.len(),
            stamps.len() == sessions.len(),
            items.len() == i,
            forall|k: int|
                0 <= k < i ==> (#[trigger] items@[k]).display@ == session_line(
                    sessions@[k].id,
                    stamps@[k]@,
                    sessions@[k].title@,
                ) && items@[k].value@ == signed_decimal(sessions@[k].id as int),
        decreases sessions.len() - i,
    {
        let display = session_text(&sessions[i], stamps[i].as_str());
        let value = i64_string(sessions[i].id);
        items.push(SlashPickerItem { display, value });
        i += 1;
    }
    SlashPicker { command: String::from_str("/resume"), items, selected: 0 }
}

/// What `/resume <id>` logs: whether it is an error, and the text.
pub fn resume_message(id: i64, found: bool) -> (r: (bool, String))
    ensures
        r.0 == !found,
        found ==> r.1@ == "Session #"@ + signed_decimal(id as int) + " resumed."@,
        !found ==> r.1@ == "Session #"@ + signed_decimal(id as int)
            + " not found. Use /sessions to list available sessions."@,
{
    let n = i64_string(id);
    if found {
        (false, concat3("Session #", n.as_str(), " resumed."))
    } else {
        (true, concat3("Session #", n.as_str(), " not found. Use /sessions to list available sessions."))
    }
}

} // verus!
