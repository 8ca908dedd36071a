//! Slash commands: the list the input box completes from, the pickers some of them
//! open, and what each typed command does.
use vstd::prelude::*;

use crate::config::{
    thinking_of, verbosity_of, Config, Provider, ThinkingDisplay, ToolDisplayVerbosity,
};
use crate::text::{chars_of, find_char, first_index_of, starts_with, str_eq, string_from_range, trim, trim_str};
use crate::types::{
    effort_of, normalized, think_level_of, think_switch_of, OllamaThink, OllamaThinkLevel,
    ReasoningEffort, RequestReasoning,
};

verus! {

// ── The command list ──────────────────────────────────────────────────────────

/// A slash command offered for completion.
pub struct SlashCommand {
    pub name: &'static str,
    pub description: &'static str,
    /// Whether the command takes a trailing argument (e.g. `/dir <path>`).
    pub has_arg: bool,
    /// Whether entering the command with no argument opens a picker.
    pub has_picker: bool,
    /// The fixed options of its picker; empty when the options are found at run time.
    pub static_options: Vec<&'static str>,
}

/// The names of the commands, in the order they are offered.
pub open spec fn command_names() -> Seq<Seq<char>> {
    seq![
        "/clear"@,
        "/exit"@,
        "/dir"@,
        "/model"@,
        "/skip-confirmations"@,
        "/streaming"@,
        "/thinking"@,
        "/tool-verbosity"@,
        "/reasoning"@,
        "/sessions"@,
        "/resume"@,
    ]
}

/// Which commands take an argument, in list order.
pub open spec fn command_args() -> Seq<bool> {
    seq![false, false, true, true, false, false, true, true, true, false, true]
}

/// Which commands open a picker when given no argument, in list order.
pub open spec fn command_pickers() -> Seq<bool> {
    seq![false, false, false, true, false, false, true, true, true, false, true]
}

fn command(
    name: &'static str,
    description: &'static str,
    has_arg: bool,
    has_picker: bool,
    static_options: Vec<&'static str>,
) -> (r: SlashCommand)
    ensures
        r.name == name,
        r.description == description,
        r.has_arg == has_arg,
        r.has_picker == has_picker,
        r.static_options == static_options,
{
    SlashCommand { name, description, has_arg, has_picker, static_options }
}

fn three(a: &'static str, b: &'static str, c: &'static str) -> (r: Vec<&'static str>)
    ensures
        r@ == seq![a, b, c],
{
    let mut v: Vec<&'static str> = Vec::new();
    v.push(a);
    v.push(b);
    v.push(c);
    v
}

/// The slash commands, in the order they are offered.
pub fn commands() -> (r: Vec<SlashCommand>)
    ensures
        r.len() == command_names().len(),
        forall|i: int| 0 <= i < r.len() ==> (#[trigger] r@[i]).name@ == command_names()[i],
        forall|i: int| 0 <= i < r.len() ==> (#[trigger] r@[i]).has_arg == command_args()[i],
        forall|i: int| 0 <= i < r.len() ==> (#[trigger] r@[i]).has_picker == command_pickers()[i],
        r@[6].static_options@ == seq!["off", "inline", "full"],
        r@[7].static_options@ == seq!["default", "minimal", "full"],
{
    let mut v: Vec<SlashCommand> = Vec::new();
    v.push(command("/clear", "Clear the conversation", false, false, Vec::new()));
    v.push(command("/exit", "Quit the application", false, false, Vec::new()));
    v.push(command("/dir", "Change working directory", true, false, Vec::new()));
    v.push(command("/model", "Browse or switch model", true, true, Vec::new()));
    v.push(command("/skip-confirmations", "Toggle confirmation prompts", false, false, Vec::new()));
    v.push(command("/streaming", "Toggle token-by-token streaming", false, false, Vec::new()));
    v.push(command("/thinking", "Set thinking display", true, true, three("off", "inline", "full")));
    v.push(
        command(
            "/tool-verbosity",
            "Set tool display verbosity",
            true,
            true,
            three("default", "minimal", "full"),
        ),
    );
    v.push(command("/reasoning", "Set reasoning/thinking level for the LLM", true, true, Vec::new()));
    v.push(command("/sessions", "List past sessions for this project", false, false, Vec::new()));
    v.push(
        command(
            "/resume",
            "Resume a past session (browse or /resume <id>)",
            true,
            true,
            Vec::new(),
        ),
    );
    v
}

/// The positions, in order, of the commands whose name starts with `prefix`.
pub open spec fn matching_commands(names: Seq<Seq<char>>, prefix: Seq<char>, n: int) -> Seq<usize>
    decreases n,
{
    if n <= 0 {
        Seq::empty()
    } else {
        let before = matching_commands(names, prefix, n - 1);
        if starts_with(names[n - 1], prefix) {
            before.push((n - 1) as usize)
        } else {
            before
        }
    }
}

/// The positions in the command list of the commands whose name starts with `prefix`.
pub fn match_commands(prefix: &str) -> (r: Vec<usize>)
    ensures
        r@ == matching_commands(command_names(), prefix@, command_names().len() as int),
{
    let cmds = commands();
    let mut out: Vec<usize> = Vec::new();
    let mut i: usize = 0;
    while i < cmds.len()
        invariant
            0 <= i <= cmds.len(),
            cmds.len() == command_names().len(),
            forall|k: int| 0 <= k < cmds.len() ==> (#[trigger] cmds@[k]).name@ == command_names()[k],
            out@ == matching_commands(command_names(), prefix@, i as int),
        decreases cmds.len() - i,
    {
        if crate::text::str_starts_with(cmds[i].name, prefix) {
            out.push(i);
        }
        i += 1;
    }
    out
}

// ── Models and reasoning levels ───────────────────────────────────────────────

pub open spec fn openrouter_models() -> Seq<Seq<char>> {
    seq![
        "google/gemini-2.5-flash-lite"@,
        "google/gemini-3.1-flash-lite"@,
        "deepseek/deepseek-v4-flash"@,
        "deepseek/deepseek-v4-pro"@,
        "google/gemma-4-26b-a4b-it"@,
        "google/gemma-4-31b-it"@,
        "minimax/minimax-m2.7"@,
        "mistralai/mistral-small-2603"@,
    ]
}

/// The models the `/model` picker offers for OpenRouter.
pub fn openrouter_model_list() -> (r: Vec<String>)
    ensures
        crate::text::views_of(r@) == openrouter_models(),
{
    let mut v: Vec<String> = Vec::new();
    v.push(String::from_str("google/gemini-2.5-flash-lite"));
    v.push(String::from_str("google/gemini-3.1-flash-lite"));
    v.push(String::from_str("deepseek/deepseek-v4-flash"));
    v.push(String::from_str("deepseek/deepseek-v4-pro"));
    v.push(String::from_str("google/gemma-4-26b-a4b-it"));
    v.push(String::from_str("google/gemma-4-31b-it"));
    v.push(String::from_str("minimax/minimax-m2.7"));
    v.push(String::from_str("mistralai/mistral-small-2603"));
    assert(crate::text::views_of(v@) =~= openrouter_models());
    v
}

/// The name of the OpenRouter reasoning effort in use; `off` when there is none.
pub open spec fn reasoning_name(r: Option<RequestReasoning>) -> Seq<char> {
    match r {
        Some(RequestReasoning { effort: Some(e), .. }) => match e {
            ReasoningEffort::XHigh => "xhigh"@,
            ReasoningEffort::High => "high"@,
            ReasoningEffort::Medium => "medium"@,
            ReasoningEffort::Low => "low"@,
            ReasoningEffort::Minimal => "minimal"@,
            ReasoningEffort::NoEffort => "none"@,
        },
        _ => "off"@,
    }
}

pub fn openrouter_reasoning_current(config: &Config) -> (r: &'static str)
    ensures
        r@ == reasoning_name(config.openrouter_reasoning),
{
    match config.openrouter_reasoning {
        Some(RequestReasoning { effort: Some(e), .. }) => match e {
            ReasoningEffort::XHigh => "xhigh",
            ReasoningEffort::High => "high",
            ReasoningEffort::Medium => "medium",
            ReasoningEffort::Low => "low",
            ReasoningEffort::Minimal => "minimal",
            ReasoningEffort::NoEffort => "none",
        },
        _ => "off",
    }
}

/// The name of the Ollama thinking level in use: `off` when none or disabled, `high` when
/// simply enabled.
pub open spec fn think_name(t: Option<OllamaThink>) -> Seq<char> {
    match t {
        None | Some(OllamaThink::OnOff(false)) => "off"@,
        Some(OllamaThink::OnOff(true)) | Some(OllamaThink::Level(OllamaThinkLevel::High)) => "high"@,
        Some(OllamaThink::Level(OllamaThinkLevel::Medium)) => "medium"@,
        Some(OllamaThink::Level(OllamaThinkLevel::Low)) => "low"@,
    }
}

pub fn ollama_think_current(config: &Config) -> (r: &'static str)
    ensures
        r@ == think_name(config.ollama_think),
{
    match config.ollama_think {
        None | Some(OllamaThink::OnOff(false)) => "off",
        Some(OllamaThink::OnOff(true)) | Some(OllamaThink::Level(OllamaThinkLevel::High)) => "high",
        Some(OllamaThink::Level(OllamaThinkLevel::Medium)) => "medium",
        Some(OllamaThink::Level(OllamaThinkLevel::Low)) => "low",
    }
}

// ── Pickers ───────────────────────────────────────────────────────────────────

pub struct SlashPickerItem {
    pub display: String,
    pub value: String,
}

/// A list of values to choose from for a command.
pub struct SlashPicker {
    pub command: String,
    pub items: Vec<SlashPickerItem>,
    pub selected: usize,
}

/// The first position of `x` in `s`; 0 when it is absent.
pub open spec fn position_or_first(s: Seq<Seq<char>>, x: Seq<char>) -> int {
    if s.contains(x) {
        first_position(s, x, 0)
    } else {
        0
    }
}

pub open spec fn first_position(s: Seq<Seq<char>>, x: Seq<char>, j: int) -> int
    decreases s.len() - j,
{
    if j < 0 || j >= s.len() {
        s.len() as int
    } else if s[j] == x {
        j
    } else {
        first_position(s, x, j + 1)
    }
}

/// How an option is shown: the one in use is marked `(active)`.
pub open spec fn option_display(opt: Seq<char>, current: Seq<char>) -> Seq<char> {
    if opt == current {
        opt + "  (active)"@
    } else {
        opt
    }
}

/// A picker for `command` over `options`, the one in use marked and selected (the
/// first when none is in use).
pub open spec fn picker_for(picker: SlashPicker, command: Seq<char>, options: Seq<Seq<char>>, current: Seq<char>) -> bool {
    &&& picker.command@ == command
    &&& picker.items.len() == options.len()
    &&& forall|i: int|
        0 <= i < options.len() ==> (#[trigger] picker.items@[i]).value@ == options[i]
            && picker.items@[i].display@ == option_display(options[i], current)
    &&& picker.selected == position_or_first(options, current)
}

proof fn lemma_first_position_from_zero(s: Seq<Seq<char>>, x: Seq<char>, j: int)
    requires
        0 <= j < s.len(),
        s[j] == x,
        forall|k: int| 0 <= k < j ==> s[k] != x,
    ensures
        first_position(s, x, 0) == j,
{
    lemma_first_position_walk(s, x, 0, j);
}

proof fn lemma_first_position_walk(s: Seq<Seq<char>>, x: Seq<char>, i: int, j: int)
    requires
        0 <= i <= j < s.len(),
        s[j] == x,
        forall|k: int| 0 <= k < j ==> s[k] != x,
    ensures
        first_position(s, x, i) == j,
    decreases j - i,
{
    if i < j {
        lemma_first_position_walk(s, x, i + 1, j);
    }
}

/// A picker for `command` over `options`, marking and selecting `current`.
pub fn picker(command: &str, options: &Vec<String>, current: &str) -> (r: SlashPicker)
    ensures
        picker_for(r, command@, crate::text::views_of(options@), current@),
{
    let ghost opts = crate::text::views_of(options@);
    let mut items: Vec<SlashPickerItem> = Vec::new();
    let mut selected: Option<usize> = None;
    let mut i: usize = 0;
    while i < options.len()
        invariant
            0 <= i <= options.len(),
            opts == crate::text::views_of(options@),
            opts.len() == options.len(),
            items.len() == i,
            forall|k: int|
                0 <= k < i ==> (#[trigger] items@[k]).value@ == opts[k] && items@[k].display@
                    == option_display(opts[k], current@),
            selected is None ==> forall|k: int| 0 <= k < i ==> opts[k] != current@,
            selected matches Some(j) ==> j < i && opts[j as int] == current@ && forall|k: int|
                0 <= k < j ==> opts[k] != current@,
        decreases options.len() - i,
    {
        assert(opts[i as int] == options@[i as int]@);
        let opt = &options[i];
        let is_current = str_eq(opt.as_str(), current);
        let display = if is_current {
            crate::text::concat2(opt.as_str(), "  (active)")
        } else {
            opt.clone()
        };
        if is_current && selected.is_none() {
            selected = Some(i);
        }
        items.push(SlashPickerItem { display, value: opt.clone() });
        i += 1;
    }
    let sel = match selected {
        Some(j) => j,
        None => 0,
    };
    proof {
        match selected {
            Some(j) => {
                assert(opts.contains(current@));
                lemma_first_position_from_zero(opts, current@, j as int);
            },
            None => {
                if opts.contains(current@) {
                    let k = choose|k: int| 0 <= k < opts.len() && opts[k] == current@;
                    assert(opts[k] != current@);
                }
            },
        }
    }
    SlashPicker { command: String::from_str(command), items, selected: sel }
}

// ── Running a command ─────────────────────────────────────────────────────────

/// The command word and its argument: the text before the first space, and the rest
/// trimmed (empty when there is no space).
pub open spec fn split_command(text: Seq<char>) -> (Seq<char>, Seq<char>) {
    let i = first_index_of(text, ' ');
    if i < text.len() {
        (text.take(i), trim(text.skip(i + 1)))
    } else {
        (text, Seq::empty())
    }
}

/// The position of a command word in the command list; 11 for an unknown word.
pub open spec fn command_index(cmd: Seq<char>) -> int {
    if cmd == "/clear"@ {
        0
    } else if cmd == "/exit"@ {
        1
    } else if cmd == "/dir"@ {
        2
    } else if cmd == "/model"@ {
        3
    } else if cmd == "/skip-confirmations"@ {
        4
    } else if cmd == "/streaming"@ {
        5
    } else if cmd == "/thinking"@ {
        6
    } else if cmd == "/tool-verbosity"@ {
        7
    } else if cmd == "/reasoning"@ {
        8
    } else if cmd == "/sessions"@ {
        9
    } else if cmd == "/resume"@ {
        10
    } else {
        11
    }
}

pub proof fn lemma_command_names()
    ensures
        command_index("/clear"@) == 0,
        command_index("/exit"@) == 1,
        command_index("/dir"@) == 2,
        command_index("/model"@) == 3,
        command_index("/skip-confirmations"@) == 4,
        command_index("/streaming"@) == 5,
        command_index("/thinking"@) == 6,
        command_index("/tool-verbosity"@) == 7,
        command_index("/reasoning"@) == 8,
        command_index("/sessions"@) == 9,
        command_index("/resume"@) == 10,
{
    reveal_strlit("/clear");
    reveal_strlit("/exit");
    reveal_strlit("/dir");
    reveal_strlit("/model");
    reveal_strlit("/skip-confirmations");
    reveal_strlit("/streaming");
    reveal_strlit("/thinking");
    reveal_strlit("/tool-verbosity");
    reveal_strlit("/reasoning");
    reveal_strlit("/sessions");
    reveal_strlit("/resume");
    assert("/clear"@.len() == 6);
    assert("/exit"@.len() == 5);
    assert("/dir"@.len() == 4);
    assert("/model"@.len() == 6);
    assert("/skip-confirmations"@.len() == 19);
    assert("/streaming"@.len() == 10);
    assert("/thinking"@.len() == 9);
    assert("/tool-verbosity"@.len() == 15);
    assert("/reasoning"@.len() == 10);
    assert("/sessions"@.len() == 9);
    assert("/resume"@.len() == 7);
    assert("/model"@[1] != "/clear"@[1]);
    assert("/reasoning"@[1] != "/streaming"@[1]);
    assert("/sessions"@[1] != "/thinking"@[1]);
}

/// `/streaming` toggles streaming: the value it sets is the opposite of the current one,
/// and the value it stores and the line it logs both name that new value.
pub proof fn lemma_streaming_toggles(text: Seq<char>, config: Config, a: SlashAction)
    requires
        split_command(text).0 == "/streaming"@,
        slash_action(a, text, config),
    ensures
        a matches SlashAction::Apply { change: SettingChange::Streaming(on), persist: Some((k, v)), info }
            && on == !config.streaming_enabled && k@ == "streaming_enabled"@ && (on ==> v@
            == "true"@ && info@ == "Streaming on"@) && (!on ==> v@ == "false"@ && info@
            == "Streaming off"@),
{
    lemma_command_names();
    reveal_strlit("Streaming on");
    reveal_strlit("Streaming off");
    reveal_strlit("Streaming ");
    reveal_strlit("on");
    reveal_strlit("off");
    assert("Streaming "@ + "on"@ =~= "Streaming on"@);
    assert("Streaming "@ + "off"@ =~= "Streaming off"@);
}

/// A change of a setting made by a command.
pub enum SettingChange {
    Model(String),
    SkipConfirmations(bool),
    Streaming(bool),
    Thinking(ThinkingDisplay),
    Verbosity(ToolDisplayVerbosity),
    OpenRouterReasoning(Option<RequestReasoning>),
    OllamaThink(Option<OllamaThink>),
}

/// What a typed slash command does.
pub enum SlashAction {
    /// Forget the conversation.
    Clear,
    /// Quit.
    Exit,
    /// Open this working directory.
    ChangeDir(String),
    /// Log this error.
    Error(String),
    /// Log this information.
    Info(String),
    /// Show this picker.
    OpenPicker(SlashPicker),
    /// Fetch the models Ollama has, then show them in a picker.
    FetchOllamaModels,
    /// Change a setting, store it under `persist` (key and value) when given, and log
    /// `info`.
    Apply { change: SettingChange, persist: Option<(String, String)>, info: String },
    /// List the sessions of the project.
    ListSessions,
    /// Show the sessions of the project in a picker.
    BrowseSessions,
    /// Resume the session with this id.
    ResumeSession(i64),
}

/// What `OllamaThink::parse` gives for `s`.
pub open spec fn think_parsed(s: Seq<char>) -> Option<OllamaThink> {
    if trim(s).len() == 0 {
        None
    } else if think_switch_of(trim(s)) is Some {
        think_switch_of(trim(s))
    } else {
        match think_level_of(normalized(trim(s))) {
            Some(l) => Some(OllamaThink::Level(l)),
            None => None,
        }
    }
}

/// `str::parse::<i64>`: an optional sign, then one or more ASCII digits, within range.
pub open spec fn parsed_i64(s: Seq<char>) -> Option<i64> {
    if s.len() > 0 && s[0] == '-' {
        match crate::config::parsed_unsigned(s.drop_first(), 0x8000_0000_0000_0000) {
            Some(n) => if s.drop_first().len() > 0 && s.drop_first()[0] != '+' {
                Some((-n) as i64)
            } else {
                None
            },
            None => None,
        }
    } else {
        match crate::config::parsed_unsigned(s, 0x7fff_ffff_ffff_ffff) {
            Some(n) => Some(n as i64),
            None => None,
        }
    }
}

pub fn parse_i64(s: &str) -> (r: Option<i64>)
    ensures
        r == parsed_i64(s@),
{
    let v = chars_of(s);
    if v.len() > 0 && v[0] == '-' {
        let rest = string_from_range(&v, 1, v.len());
        assert(rest@ =~= s@.drop_first());
        if rest.as_str().is_empty() {
            return None;
        }
        let rv = chars_of(rest.as_str());
        if rv[0] == '+' {
            proof {
                if crate::config::parsed_unsigned(s@.drop_first(), 0x8000_0000_0000_0000) is Some {
                }
            }
            return None;
        }
        match crate::config::parse_unsigned(rest.as_str(), 0x8000_0000_0000_0000) {
            Some(n) => {
                if n == 0x8000_0000_0000_0000 {
                    Some(i64::MIN)
                } else {
                    Some(-(n as i64))
                }
            },
            None => None,
        }
    } else {
        match crate::config::parse_unsigned(s, 0x7fff_ffff_ffff_ffff) {
            Some(n) => Some(n as i64),
            None => None,
        }
    }
}

pub open spec fn on_off(b: bool, yes: Seq<char>, no: Seq<char>) -> Seq<char> {
    if b {
        yes
    } else {
        no
    }
}

pub open spec fn thinking_name(t: ThinkingDisplay) -> Seq<char> {
    match t {
        ThinkingDisplay::Off => "off"@,
        ThinkingDisplay::Inline => "inline"@,
        ThinkingDisplay::Full => "full"@,
    }
}

pub open spec fn verbosity_name(v: ToolDisplayVerbosity) -> Seq<char> {
    match v {
        ToolDisplayVerbosity::Default => "default"@,
        ToolDisplayVerbosity::Minimal => "minimal"@,
        ToolDisplayVerbosity::Full => "full"@,
    }
}

pub open spec fn is_info(a: SlashAction, text: Seq<char>) -> bool {
    a matches SlashAction::Info(m) && m@ == text
}

pub open spec fn is_error(a: SlashAction, text: Seq<char>) -> bool {
    a matches SlashAction::Error(m) && m@ == text
}

/// `a` changes a setting, stores `persist` and logs `info`.
pub open spec fn applies(a: SlashAction, persist: Option<(Seq<char>, Seq<char>)>, info: Seq<char>) -> bool {
    a matches SlashAction::Apply { persist: p, info: i, .. } && i@ == info && match (p, persist) {
        (Some(x), Some(y)) => x.0@ == y.0 && x.1@ == y.1,
        (None, None) => true,
        _ => false,
    }
}

pub open spec fn change_of(a: SlashAction) -> SettingChange {
    a->Apply_change
}

/// What `/reasoning <arg>` does for the provider in use.
pub open spec fn reasoning_action(a: SlashAction, arg: Seq<char>, config: Config) -> bool {
    match config.provider {
        Provider::OpenRouter => if arg == "off"@ {
            applies(a, Some(("openrouter_reasoning"@, "off"@)), "OpenRouter reasoning disabled."@)
                && change_of(a) == SettingChange::OpenRouterReasoning(None)
        } else if effort_of(normalized(arg)) is Some {
            applies(a, Some(("openrouter_reasoning"@, arg)), "OpenRouter reasoning set to: "@ + arg)
                && change_of(a) == SettingChange::OpenRouterReasoning(
                Some(
                    RequestReasoning {
                        effort: effort_of(normalized(arg)),
                        summary: match config.openrouter_reasoning {
                            Some(r) => r.summary,
                            None => None,
                        },
                    },
                ),
            )
        } else {
            is_error(a, "Usage: /reasoning <off|minimal|none|low|medium|high|xhigh>"@)
        },
        Provider::Ollama => if arg == "off"@ {
            applies(a, Some(("ollama_think"@, "off"@)), "Ollama thinking disabled."@)
                && change_of(a) == SettingChange::OllamaThink(None)
        } else if think_parsed(arg) is Some {
            applies(a, Some(("ollama_think"@, arg)), "Ollama think set to: "@ + arg) && change_of(a)
                == SettingChange::OllamaThink(think_parsed(arg))
        } else {
            is_error(a, "Usage: /reasoning <off|low|medium|high>"@)
        },
        Provider::Local => is_info(a, "Reasoning is not configurable for the local provider."@),
    }
}

pub open spec fn reasoning_options(p: Provider) -> Seq<Seq<char>> {
    match p {
        Provider::OpenRouter => seq!["off"@, "minimal"@, "none"@, "low"@, "medium"@, "high"@, "xhigh"@],
        _ => seq!["off"@, "low"@, "medium"@, "high"@],
    }
}

/// What the typed command `text` does, given the settings in use.
pub open spec fn slash_action(a: SlashAction, text: Seq<char>, config: Config) -> bool {
    let (cmd, arg) = split_command(text);
    let i = command_index(cmd);
    if i == 0 {
        a is Clear
    } else if i == 1 {
        a is Exit
    } else if i == 2 {
        if arg.len() == 0 {
            is_error(a, "Usage: /dir <path>"@)
        } else {
            a matches SlashAction::ChangeDir(d) && d@ == arg
        }
    } else if i == 3 {
        if arg.len() > 0 {
            applies(a, Some(("model"@, arg)), "Model set to: "@ + arg) && (change_of(a) matches SettingChange::Model(m) && m@ == arg)
        } else {
            match config.provider {
                Provider::OpenRouter => a matches SlashAction::OpenPicker(p) && picker_for(
                    p,
                    "/model"@,
                    openrouter_models(),
                    config.model@,
                ),
                Provider::Ollama => a is FetchOllamaModels,
                Provider::Local => is_info(a, "Current model: "@ + config.model@),
            }
        }
    } else if i == 4 {
        applies(
            a,
            None,
            "Confirmations "@ + on_off(!config.skip_confirmations, "disabled"@, "enabled"@) + " (session only)"@,
        ) && change_of(a) == SettingChange::SkipConfirmations(!config.skip_confirmations)
    } else if i == 5 {
        applies(
            a,
            Some(("streaming_enabled"@, on_off(!config.streaming_enabled, "true"@, "false"@))),
            "Streaming "@ + on_off(!config.streaming_enabled, "on"@, "off"@),
        ) && change_of(a) == SettingChange::Streaming(!config.streaming_enabled)
    } else if i == 6 {
        if arg.len() == 0 {
            a matches SlashAction::OpenPicker(p) && picker_for(
                p,
                "/thinking"@,
                seq!["off"@, "inline"@, "full"@],
                thinking_name(config.thinking_display),
            )
        } else if thinking_of(normalized(arg)) is Some {
            applies(a, Some(("thinking_display"@, arg)), "Thinking display set to: "@ + arg)
                && change_of(a) == SettingChange::Thinking(thinking_of(normalized(arg))->Some_0)
        } else {
            is_error(a, "Usage: /thinking <off|inline|full>"@)
        }
    } else if i == 7 {
        if arg.len() == 0 {
            a matches SlashAction::OpenPicker(p) && picker_for(
                p,
                "/tool-verbosity"@,
                seq!["default"@, "minimal"@, "full"@],
                verbosity_name(config.tool_display_verbosity),
            )
        } else if verbosity_of(normalized(arg)) is Some {
            applies(a, Some(("tool_display_verbosity"@, arg)), "Tool verbosity set to: "@ + arg)
                && change_of(a) == SettingChange::Verbosity(verbosity_of(normalized(arg))->Some_0)
        } else {
            is_error(a, "Usage: /tool-verbosity <default|minimal|full>"@)
        }
    } else if i == 8 {
        if arg.len() > 0 {
            reasoning_action(a, arg, config)
        } else {
            match config.provider {
                Provider::Local => is_info(a, "Reasoning is not configurable for the local provider."@),
                Provider::OpenRouter => a matches SlashAction::OpenPicker(p) && picker_for(
                    p,
                    "/reasoning"@,
                    reasoning_options(config.provider),
                    reasoning_name(config.openrouter_reasoning),
                ),
                Provider::Ollama => a matches SlashAction::OpenPicker(p) && picker_for(
                    p,
                    "/reasoning"@,
                    reasoning_options(config.provider),
                    think_name(config.ollama_think),
                ),
            }
        }
    } else if i == 9 {
        a is ListSessions
    } else if i == 10 {
        if arg.len() == 0 {
            a is BrowseSessions
        } else {
            match parsed_i64(arg) {
                Some(id) => a == SlashAction::ResumeSession(id),
                None => is_error(a, "Usage: /resume <session-id>"@),
            }
        }
    } else {
        is_error(a, "Unknown command: "@ + cmd)
    }
}

/// The command word and its trimmed argument.
pub fn split_command_text(text: &str) -> (r: (String, String))
    ensures
        (r.0@, r.1@) == split_command(text@),
{
    let v = chars_of(text);
    let i = find_char(&v, ' ');
    if i < v.len() {
        let cmd = string_from_range(&v, 0, i);
        let rest = string_from_range(&v, i + 1, v.len());
        let arg = trim_str(rest.as_str());
        assert(v@.subrange(0, i as int) =~= text@.take(i as int));
        assert(v@.subrange(i + 1, v.len() as int) =~= text@.skip(i + 1));
        (cmd, arg)
    } else {
        let cmd = string_from_range(&v, 0, v.len());
        assert(v@.subrange(0, v.len() as int) =~= text@);
        (cmd, String::new())
    }
}

fn info(lead: &str, arg: &str) -> (r: String)
    ensures
        r@ == lead@ + arg@,
{
    crate::text::concat2(lead, arg)
}

fn apply(change: SettingChange, key: &str, value: &str, message: String) -> (r: SlashAction)
    ensures
        applies(r, Some((key@, value@)), message@),
        change_of(r) == change,
{
    SlashAction::Apply {
        change,
        persist: Some((String::from_str(key), String::from_str(value))),
        info: message,
    }
}

fn options3(a: &str, b: &str, c: &str) -> (r: Vec<String>)
    ensures
        crate::text::views_of(r@) == seq![a@, b@, c@],
{
    let mut v: Vec<String> = Vec::new();
    v.push(String::from_str(a));
    v.push(String::from_str(b));
    v.push(String::from_str(c));
    assert(crate::text::views_of(v@) =~= seq![a@, b@, c@]);
    v
}

fn reasoning_options_of(provider: Provider) -> (r: Vec<String>)
    ensures
        crate::text::views_of(r@) == reasoning_options(provider),
{
    let mut v: Vec<String> = Vec::new();
    v.push(String::from_str("off"));
    match provider {
        Provider::OpenRouter => {
            v.push(String::from_str("minimal"));
            v.push(String::from_str("none"));
            v.push(String::from_str("low"));
            v.push(String::from_str("medium"));
            v.push(String::from_str("high"));
            v.push(String::from_str("xhigh"));
        },
        _ => {
            v.push(String::from_str("low"));
            v.push(String::from_str("medium"));
            v.push(String::from_str("high"));
        },
    }
    assert(crate::text::views_of(v@) =~= reasoning_options(provider));
    v
}

/// `/reasoning <arg>`.
fn reasoning_command(arg: &str, config: &Config) -> (r: SlashAction)
    ensures
        reasoning_action(r, arg@, *config),
{
    match config.provider {
        Provider::OpenRouter => {
            if str_eq(arg, "off") {
                apply(
                    SettingChange::OpenRouterReasoning(None),
                    "openrouter_reasoning",
                    "off",
                    String::from_str("OpenRouter reasoning disabled."),
                )
            } else {
                match ReasoningEffort::parse(arg) {
                    Ok(effort) => {
                        let summary = match config.openrouter_reasoning {
                            Some(r) => r.summary,
                            None => None,
                        };
                        apply(
                            SettingChange::OpenRouterReasoning(
                                Some(RequestReasoning { effort: Some(effort), summary }),
                            ),
                            "openrouter_reasoning",
                            arg,
                            info("OpenRouter reasoning set to: ", arg),
                        )
                    },
                    Err(_) => SlashAction::Error(
                        String::from_str("Usage: /reasoning <off|minimal|none|low|medium|high|xhigh>"),
                    ),
                }
            }
        },
        Provider::Ollama => {
            if str_eq(arg, "off") {
                apply(
                    SettingChange::OllamaThink(None),
                    "ollama_think",
                    "off",
                    String::from_str("Ollama thinking disabled."),
                )
            } else {
                match OllamaThink::parse(arg) {
                    Ok(think) => apply(
                        SettingChange::OllamaThink(Some(think)),
                        "ollama_think",
                        arg,
                        info("Ollama think set to: ", arg),
                    ),
                    Err(_) => SlashAction::Error(
                        String::from_str("Usage: /reasoning <off|low|medium|high>"),
                    ),
                }
            }
        },
        Provider::Local => SlashAction::Info(
            String::from_str("Reasoning is not configurable for the local provider."),
        ),
    }
}

/// What the typed command `text` does.
#[verifier::rlimit(40)]
pub fn slash_command(text: &str, config: &Config) -> (r: SlashAction)
    ensures
        slash_action(r, text@, *config),
{
    proof {
        lemma_command_names();
    }
    let (cmd, arg) = split_command_text(text);
    let c = cmd.as_str();
    let a = arg.as_str();
    if str_eq(c, "/clear") {
        SlashAction::Clear
    } else if str_eq(c, "/exit") {
        SlashAction::Exit
    } else if str_eq(c, "/dir") {
        if a.is_empty() {
            SlashAction::Error(String::from_str("Usage: /dir <path>"))
        } else {
            SlashAction::ChangeDir(arg)
        }
    } else if str_eq(c, "/model") {
        if !a.is_empty() {
            apply(SettingChange::Model(arg.clone()), "model", a, info("Model set to: ", a))
        } else {
            match config.provider {
                Provider::OpenRouter => {
                    let models = openrouter_model_list();
                    SlashAction::OpenPicker(picker("/model", &models, config.model.as_str()))
                },
                Provider::Ollama => SlashAction::FetchOllamaModels,
                Provider::Local => SlashAction::Info(info("Current model: ", config.model.as_str())),
            }
        }
    } else if str_eq(c, "/skip-confirmations") {
        let next = !config.skip_confirmations;
        let word = if next {
            "disabled"
        } else {
            "enabled"
        };
        let mut message = String::from_str("Confirmations ");
        message.append(word);
        message.append(" (session only)");
        SlashAction::Apply { change: SettingChange::SkipConfirmations(next), persist: None, info: message }
    } else if str_eq(c, "/streaming") {
        let next = !config.streaming_enabled;
        let value = if next {
            "true"
        } else {
            "false"
        };
        let word = if next {
            "on"
        } else {
            "off"
        };
        apply(SettingChange::Streaming(next), "streaming_enabled", value, info("Streaming ", word))
    } else if str_eq(c, "/thinking") {
        if a.is_empty() {
            let current = match config.thinking_display {
                ThinkingDisplay::Off => "off",
                ThinkingDisplay::Inline => "inline",
                ThinkingDisplay::Full => "full",
            };
            let options = options3("off", "inline", "full");
            SlashAction::OpenPicker(picker("/thinking", &options, current))
        } else {
            match ThinkingDisplay::parse(a) {
                Ok(mode) => apply(
                    SettingChange::Thinking(mode),
                    "thinking_display",
                    a,
                    info("Thinking display set to: ", a),
                ),
                Err(_) => SlashAction::Error(String::from_str("Usage: /thinking <off|inline|full>")),
            }
        }
    } else if str_eq(c, "/tool-verbosity") {
        if a.is_empty() {
            let current = match config.tool_display_verbosity {
                ToolDisplayVerbosity::Default => "default",
                ToolDisplayVerbosity::Minimal => "minimal",
                ToolDisplayVerbosity::Full => "full",
            };
            let options = options3("default", "minimal", "full");
            SlashAction::OpenPicker(picker("/tool-verbosity", &options, current))
        } else {
            match ToolDisplayVerbosity::parse(a) {
                Ok(mode) => apply(
                    SettingChange::Verbosity(mode),
                    "tool_display_verbosity",
                    a,
                    info("Tool verbosity set to: ", a),
                ),
                Err(_) => SlashAction::Error(
                    String::from_str("Usage: /tool-verbosity <default|minimal|full>"),
                ),
            }
        }
    } else if str_eq(c, "/reasoning") {
        if !a.is_empty() {
            reasoning_command(a, config)
        } else {
            match config.provider {
                Provider::Local => SlashAction::Info(
                    String::from_str("Reasoning is not configurable for the local provider."),
                ),
                Provider::OpenRouter => {
                    let options = reasoning_options_of(config.provider);
                    SlashAction::OpenPicker(picker("/reasoning", &options, openrouter_reasoning_current(config)))
                },
                Provider::Ollama => {
                    let options = reasoning_options_of(config.provider);
                    SlashAction::OpenPicker(picker("/reasoning", &options, ollama_think_current(config)))
                },
            }
        }
    } else if str_eq(c, "/sessions") {
        SlashAction::ListSessions
    } else if str_eq(c, "/resume") {
        if a.is_empty() {
            SlashAction::BrowseSessions
        } else {
            match parse_i64(a) {
                Some(id) => SlashAction::ResumeSession(id),
                None => SlashAction::Error(String::from_str("Usage: /resume <session-id>")),
            }
        }
    } else {
        SlashAction::Error(info("Unknown command: ", c))
    }
}

impl Config {
    /// Applies a setting changed by a command.
    pub fn apply_setting(&mut self, change: SettingChange)
        ensures
            *final(self) == match change {
                SettingChange::Model(m) => Config { model: m, ..*old(self) },
                SettingChange::SkipConfirmations(b) => Config { skip_confirmations: b, ..*old(self) },
                SettingChange::Streaming(b) => Config { streaming_enabled: b, ..*old(self) },
                SettingChange::Thinking(t) => Config { thinking_display: t, ..*old(self) },
                SettingChange::Verbosity(v) => Config { tool_display_verbosity: v, ..*old(self) },
                SettingChange::OpenRouterReasoning(r) => Config { openrouter_reasoning: r, ..*old(self) },
                SettingChange::OllamaThink(t) => Config { ollama_think: t, ..*old(self) },
            },
    {
        match change {
            SettingChange::Model(m) => self.model = m,
            SettingChange::SkipConfirmations(b) => self.skip_confirmations = b,
            SettingChange::Streaming(b) => self.streaming_enabled = b,
            SettingChange::Thinking(t) => self.thinking_display = t,
            SettingChange::Verbosity(v) => self.tool_display_verbosity = v,
            SettingChange::OpenRouterReasoning(r) => self.openrouter_reasoning = r,
            SettingChange::OllamaThink(t) => self.ollama_think = t,
        }
    }
}

} // verus!
