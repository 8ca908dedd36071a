//! Runtime configuration assembled from environment values and command-line overrides.
use vstd::prelude::*;

use crate::commands::think_parsed;
use crate::text::{concat3, owned, str_eq, str_eq_ignore_ascii_case, to_lowercase, unicode_lowercase};
use crate::types::{
    normalize, normalized, opt_str, OllamaThink, OllamaThinkLevel, ReasoningEffort,
    ReasoningSummaryVerbosity, RequestReasoning, effort_of, summary_of,
};

verus! {

/// Where chat completions come from.
#[derive(Debug, Clone, Copy, PartialEq, Eq, Structural)]
pub enum Provider {
    Ollama,
    OpenRouter,
    /// Offline inference through llama.cpp.
    Local,
}

/// How much detail a Tool chat entry shows.
#[derive(Debug, Clone, Copy, PartialEq, Eq, Structural)]
pub enum ToolDisplayVerbosity {
    /// `[tool_name] Brief action`.
    Default,
    /// `[tool_name] Description with args`.
    Minimal,
    /// `[tool_name] Description with args → result snippet (capped)`.
    Full,
}

/// Cap on the result snippet length appended in `Full` mode.
pub const TOOL_DISPLAY_FULL_RESULT_CAP: usize = 240;

/// Whether the model's reasoning tokens are shown.
#[derive(Debug, Clone, Copy, PartialEq, Eq, Structural)]
pub enum ThinkingDisplay {
    /// Discard reasoning silently.
    Off,
    /// A single live `[Thinking… (N chars)]` indicator, nothing kept.
    Inline,
    /// Stream reasoning live and keep it as a chat entry.
    Full,
}

pub open spec fn verbosity_of(l: Seq<char>) -> Option<ToolDisplayVerbosity> {
    if l == "default"@ {
        Some(ToolDisplayVerbosity::Default)
    } else if l == "minimal"@ {
        Some(ToolDisplayVerbosity::Minimal)
    } else if l == "full"@ {
        Some(ToolDisplayVerbosity::Full)
    } else {
        None
    }
}

pub open spec fn verbosity_error(l: Seq<char>) -> Seq<char> {
    "unknown TOOL_DISPLAY_VERBOSITY: "@ + l + " (expected default, minimal, or full)"@
}

impl ToolDisplayVerbosity {
    /// Parses a verbosity from text that is already trimmed and lowercased.
    pub fn from_normalized(l: &str) -> (r: Result<ToolDisplayVerbosity, String>)
        ensures
            r is Ok <==> verbosity_of(l@) is Some,
            r matches Ok(v) ==> verbosity_of(l@) == Some(v),
            r matches Err(m) ==> m@ == verbosity_error(l@),
    {
        if str_eq(l, "default") {
            Ok(ToolDisplayVerbosity::Default)
        } else if str_eq(l, "minimal") {
            Ok(ToolDisplayVerbosity::Minimal)
        } else if str_eq(l, "full") {
            Ok(ToolDisplayVerbosity::Full)
        } else {
            Err(concat3("unknown TOOL_DISPLAY_VERBOSITY: ", l, " (expected default, minimal, or full)"))
        }
    }

    /// `default`, `minimal` or `full`, ignoring surrounding whitespace and case.
    pub fn parse(s: &str) -> (r: Result<ToolDisplayVerbosity, String>)
        ensures
            r is Ok <==> verbosity_of(normalized(s@)) is Some,
            r matches Ok(v) ==> verbosity_of(normalized(s@)) == Some(v),
            r matches Err(m) ==> m@ == verbosity_error(normalized(s@)),
    {
        let l = normalize(s);
        ToolDisplayVerbosity::from_normalized(l.as_str())
    }
}

pub open spec fn thinking_of(l: Seq<char>) -> Option<ThinkingDisplay> {
    if l == "off"@ || l == "false"@ || l == "0"@ || l == "no"@ {
        Some(ThinkingDisplay::Off)
    } else if l == "inline"@ {
        Some(ThinkingDisplay::Inline)
    } else if l == "full"@ {
        Some(ThinkingDisplay::Full)
    } else {
        None
    }
}

pub open spec fn thinking_error(l: Seq<char>) -> Seq<char> {
    "unknown THINKING_DISPLAY: "@ + l + " (expected off, inline, or full)"@
}

impl ThinkingDisplay {
    /// Parses a display mode from text that is already trimmed and lowercased.
    pub fn from_normalized(l: &str) -> (r: Result<ThinkingDisplay, String>)
        ensures
            r is Ok <==> thinking_of(l@) is Some,
            r matches Ok(v) ==> thinking_of(l@) == Some(v),
            r matches Err(m) ==> m@ == thinking_error(l@),
    {
        if str_eq(l, "off") || str_eq(l, "false") || str_eq(l, "0") || str_eq(l, "no") {
            Ok(ThinkingDisplay::Off)
        } else if str_eq(l, "inline") {
            Ok(ThinkingDisplay::Inline)
        } else if str_eq(l, "full") {
            Ok(ThinkingDisplay::Full)
        } else {
            Err(concat3("unknown THINKING_DISPLAY: ", l, " (expected off, inline, or full)"))
        }
    }

    /// `off` (also `false`, `0`, `no`), `inline` or `full`, ignoring surrounding
    /// whitespace and case.
    pub fn parse(s: &str) -> (r: Result<ThinkingDisplay, String>)
        ensures
            r is Ok <==> thinking_of(normalized(s@)) is Some,
            r matches Ok(v) ==> thinking_of(normalized(s@)) == Some(v),
            r matches Err(m) ==> m@ == thinking_error(normalized(s@)),
    {
        let l = normalize(s);
        ThinkingDisplay::from_normalized(l.as_str())
    }
}

// ── Unsigned integers ─────────────────────────────────────────────────────────

pub open spec fn is_digit(c: char) -> bool {
    '0' <= c && c <= '9'
}

pub open spec fn digit_value(c: char) -> int {
    (c as u32) - ('0' as u32)
}

/// The number written by the decimal digits `d`.
pub open spec fn digits_value(d: Seq<char>) -> int
    decreases d.len(),
{
    if d.len() == 0 {
        0
    } else {
        digits_value(d.drop_last()) * 10 + digit_value(d.last())
    }
}

/// The digits of an unsigned integer literal: the text after an optional `+`.
pub open spec fn unsigned_digits(s: Seq<char>) -> Seq<char> {
    if s.len() > 0 && s[0] == '+' {
        s.drop_first()
    } else {
        s
    }
}

/// `str::parse` for an unsigned integer type whose largest value is `max`: an optional
/// `+`, then one or more ASCII digits, with the value at most `max`.
pub open spec fn parsed_unsigned(s: Seq<char>, max: int) -> Option<int> {
    let d = unsigned_digits(s);
    if d.len() > 0 && (forall|i: int| 0 <= i < d.len() ==> is_digit(#[trigger] d[i]))
        && digits_value(d) <= max {
        Some(digits_value(d))
    } else {
        None
    }
}

proof fn lemma_digits_value_nonneg(d: Seq<char>)
    requires
        forall|i: int| 0 <= i < d.len() ==> is_digit(#[trigger] d[i]),
    ensures
        digits_value(d) >= 0,
    decreases d.len(),
{
    if d.len() > 0 {
        lemma_digits_value_nonneg(d.drop_last());
    }
}

proof fn lemma_digits_value_mono(d: Seq<char>, e: Seq<char>)
    requires
        forall|i: int| 0 <= i < e.len() ==> is_digit(#[trigger] e[i]),
        d.len() <= e.len(),
        d == e.take(d.len() as int),
    ensures
        digits_value(d) <= digits_value(e),
    decreases e.len(),
{
    if e.len() > d.len() {
        assert(e.drop_last().take(d.len() as int) == d);
        lemma_digits_value_mono(d, e.drop_last());
        lemma_digits_value_nonneg(e.drop_last());
    } else {
        assert(d == e);
    }
}

/// `str::parse::<u64>`, with the result also bounded by `max`.
pub fn parse_unsigned(s: &str, max: u64) -> (r: Option<u64>)
    ensures
        r == (match parsed_unsigned(s@, max as int) {
            Some(n) => Some(n as u64),
            None => None,
        }),
        r matches Some(n) ==> n <= max,
        parsed_unsigned(s@, max as int) matches Some(n) ==> 0 <= n <= max,
{
    proof {
        let d = unsigned_digits(s@);
        if parsed_unsigned(s@, max as int) is Some {
            lemma_digits_value_nonneg(d);
        }
    }
    let v = crate::text::chars_of(s);
    let start: usize = if v.len() > 0 && v[0] == '+' { 1 } else { 0 };
    let ghost d = unsigned_digits(s@);
    assert(d == v@.skip(start as int));
    if start >= v.len() {
        assert(d.len() == 0);
        return None;
    }
    let mut acc: u64 = 0;
    let mut i = start;
    while i < v.len()
        invariant
            start <= i <= v.len(),
            v@ == s@,
            d == v@.skip(start as int),
            d == unsigned_digits(s@),
            d.len() > 0,
            forall|k: int| 0 <= k < i - start ==> is_digit(#[trigger] d[k]),
            acc as int == digits_value(d.take(i - start)),
            acc <= max,
        decreases v.len() - i,
    {
        let c = v[i];
        assert(d[i - start] == c);
        if !('0' <= c && c <= '9') {
            assert(!is_digit(d[i - start]));
            return None;
        }
        let dv = ((c as u32) - ('0' as u32)) as u64;
        assert(d.take(i - start + 1).drop_last() == d.take(i - start));
        if dv > max || acc > (max - dv) / 10 {
            proof {
                assert(forall|k: int| 0 <= k < (i - start + 1) ==> is_digit(#[trigger] d.take(i - start + 1)[k]));
                assert(digits_value(d.take(i - start + 1)) == acc * 10 + dv);
                assert(acc * 10 + dv > max) by (nonlinear_arith)
                    requires
                        dv > max || acc > (max - dv) / 10,
                        acc >= 0;
                if forall|k: int| 0 <= k < d.len() ==> is_digit(#[trigger] d[k]) {
                    lemma_digits_value_mono(d.take(i - start + 1), d);
                }
            }
            return None;
        }
        proof {
            assert(acc * 10 + dv <= max) by (nonlinear_arith)
                requires
                    acc <= (max - dv) / 10,
                    dv <= max;
        }
        acc = acc * 10 + dv;
        i += 1;
    }
    assert(d.take(d.len() as int) == d);
    Some(acc)
}

// ── Configuration ─────────────────────────────────────────────────────────────

/// The environment values the configuration is read from (`None` = unset).
pub struct EnvSnapshot {
    pub provider: Option<String>,
    pub model: Option<String>,
    pub openrouter_api_key: Option<String>,
    pub ollama_base_url: Option<String>,
    pub openrouter_base_url: Option<String>,
    pub openrouter_reasoning_effort: Option<String>,
    pub openrouter_reasoning_summary: Option<String>,
    pub ollama_think: Option<String>,
    pub streaming: Option<String>,
    pub skip_confirmations: Option<String>,
    pub context_max_tokens: Option<String>,
    pub local_model_repo: Option<String>,
    pub local_model_file: Option<String>,
    pub local_model_path: Option<String>,
    pub local_context_tokens: Option<String>,
    pub local_gpu_layers: Option<String>,
    pub local_threads: Option<String>,
    pub local_max_output_tokens: Option<String>,
    pub tool_display_verbosity: Option<String>,
    pub thinking_display: Option<String>,
}

/// Settings that drive the providers, the agent loop and the display.
#[derive(Debug, Clone)]
pub struct Config {
    pub provider: Provider,
    pub model: String,
    pub openrouter_api_key: Option<String>,
    pub ollama_base_url: String,
    pub openrouter_base_url: String,
    /// Sent as OpenRouter `reasoning`; `None` omits it.
    pub openrouter_reasoning: Option<RequestReasoning>,
    /// Sent as Ollama `think`; `None` omits it.
    pub ollama_think: Option<OllamaThink>,
    pub streaming_enabled: bool,
    /// Execute destructive tools without asking.
    pub skip_confirmations: bool,
    /// Estimated token ceiling; `0` disables the guard.
    pub context_max_tokens: usize,
    pub local_model_repo: String,
    pub local_model_file: String,
    pub local_model_path: Option<String>,
    pub local_context_tokens: u32,
    pub local_gpu_layers: u32,
    pub local_threads: Option<usize>,
    pub local_max_output_tokens: usize,
    pub tool_display_verbosity: ToolDisplayVerbosity,
    pub thinking_display: ThinkingDisplay,
}

/// The boolean an environment value stands for, `default` when unset or unknown.
pub open spec fn env_bool_of(v: Option<Seq<char>>, default: bool) -> bool {
    match v {
        None => default,
        Some(s) => {
            let l = unicode_lowercase(s);
            if l == "true"@ || l == "1"@ || l == "on"@ || l == "yes"@ {
                true
            } else if l == "false"@ || l == "0"@ || l == "off"@ || l == "no"@ {
                false
            } else {
                default
            }
        },
    }
}

pub fn env_bool(v: &Option<String>, default: bool) -> (r: bool)
    ensures
        r == env_bool_of(opt_str(*v), default),
{
    match v {
        None => default,
        Some(s) => {
            let l = to_lowercase(s.as_str());
            let ls = l.as_str();
            if str_eq(ls, "true") || str_eq(ls, "1") || str_eq(ls, "on") || str_eq(ls, "yes") {
                true
            } else if str_eq(ls, "false") || str_eq(ls, "0") || str_eq(ls, "off") || str_eq(
                ls,
                "no",
            ) {
                false
            } else {
                default
            }
        },
    }
}

/// `s` is empty or spells `off` in any ASCII case.
pub open spec fn is_off(s: Seq<char>) -> bool {
    s.len() == 0 || crate::text::eq_ignore_ascii_case(s, "off"@)
}

fn is_off_exec(s: &str) -> (r: bool)
    ensures
        r == is_off(s@),
{
    s.is_empty() || str_eq_ignore_ascii_case(s, "off")
}

/// OpenRouter `reasoning` from `OPENROUTER_REASONING_EFFORT` (unset: `minimal`; empty or
/// `off`: no reasoning; unknown: `minimal`) and `OPENROUTER_REASONING_SUMMARY` (unset,
/// empty, `off` or unknown: none).
pub open spec fn openrouter_reasoning_of(effort: Option<Seq<char>>, summary: Option<Seq<char>>) -> Option<RequestReasoning> {
    let s = match summary {
        Some(t) => if is_off(t) {
            None
        } else {
            summary_of(normalized(t))
        },
        None => None,
    };
    match effort {
        Some(t) => if is_off(t) {
            None
        } else {
            Some(
                RequestReasoning {
                    effort: Some(
                        match effort_of(normalized(t)) {
                            Some(e) => e,
                            None => ReasoningEffort::Minimal,
                        },
                    ),
                    summary: s,
                },
            )
        },
        None => Some(RequestReasoning { effort: Some(ReasoningEffort::Minimal), summary: s }),
    }
}

pub fn openrouter_reasoning_from_env(env: &EnvSnapshot) -> (r: Option<RequestReasoning>)
    ensures
        r == openrouter_reasoning_of(
            opt_str(env.openrouter_reasoning_effort),
            opt_str(env.openrouter_reasoning_summary),
        ),
{
    let effort = match &env.openrouter_reasoning_effort {
        Some(s) => {
            if is_off_exec(s.as_str()) {
                return None;
            }
            match ReasoningEffort::parse(s.as_str()) {
                Ok(e) => Some(e),
                Err(_) => Some(ReasoningEffort::Minimal),
            }
        },
        None => Some(ReasoningEffort::Minimal),
    };
    let summary = match &env.openrouter_reasoning_summary {
        Some(s) => {
            if is_off_exec(s.as_str()) {
                None
            } else {
                match ReasoningSummaryVerbosity::parse(s.as_str()) {
                    Ok(v) => Some(v),
                    Err(_) => None,
                }
            }
        },
        None => None,
    };
    Some(RequestReasoning { effort, summary })
}

/// `THINKING_DISPLAY`: unset, empty or unknown means `Off`.
pub open spec fn thinking_display_of(v: Option<Seq<char>>) -> ThinkingDisplay {
    match v {
        Some(s) => if s.len() > 0 && thinking_of(normalized(s)) is Some {
            thinking_of(normalized(s)).unwrap()
        } else {
            ThinkingDisplay::Off
        },
        None => ThinkingDisplay::Off,
    }
}

pub fn thinking_display_from_env(env: &EnvSnapshot) -> (r: ThinkingDisplay)
    ensures
        r == thinking_display_of(opt_str(env.thinking_display)),
{
    match &env.thinking_display {
        Some(s) => {
            if s.as_str().is_empty() {
                return ThinkingDisplay::Off;
            }
            match ThinkingDisplay::parse(s.as_str()) {
                Ok(v) => v,
                Err(_) => ThinkingDisplay::Off,
            }
        },
        None => ThinkingDisplay::Off,
    }
}

/// `TOOL_DISPLAY_VERBOSITY`: unset, empty or unknown means `Default`.
pub open spec fn tool_display_verbosity_of(v: Option<Seq<char>>) -> ToolDisplayVerbosity {
    match v {
        Some(s) => if s.len() > 0 && verbosity_of(normalized(s)) is Some {
            verbosity_of(normalized(s)).unwrap()
        } else {
            ToolDisplayVerbosity::Default
        },
        None => ToolDisplayVerbosity::Default,
    }
}

pub fn tool_display_verbosity_from_env(env: &EnvSnapshot) -> (r: ToolDisplayVerbosity)
    ensures
        r == tool_display_verbosity_of(opt_str(env.tool_display_verbosity)),
{
    match &env.tool_display_verbosity {
        Some(s) => {
            if s.as_str().is_empty() {
                return ToolDisplayVerbosity::Default;
            }
            match ToolDisplayVerbosity::parse(s.as_str()) {
                Ok(v) => v,
                Err(_) => ToolDisplayVerbosity::Default,
            }
        },
        None => ToolDisplayVerbosity::Default,
    }
}

/// `OLLAMA_THINK`: unset means `low`; empty or `off` omits the field; unparsable means `low`.
pub open spec fn ollama_think_of(v: Option<Seq<char>>) -> Option<OllamaThink> {
    match v {
        None => Some(OllamaThink::Level(OllamaThinkLevel::Low)),
        Some(s) => if is_off(s) {
            None
        } else {
            match think_parsed(s) {
                Some(t) => Some(t),
                None => Some(OllamaThink::Level(OllamaThinkLevel::Low)),
            }
        },
    }
}

pub fn ollama_think_from_env(env: &EnvSnapshot) -> (r: Option<OllamaThink>)
    ensures
        r == ollama_think_of(opt_str(env.ollama_think)),
{
    match &env.ollama_think {
        None => Some(OllamaThink::Level(OllamaThinkLevel::Low)),
        Some(s) => {
            if is_off_exec(s.as_str()) {
                return None;
            }
            match OllamaThink::parse(s.as_str()) {
                Ok(t) => Some(t),
                Err(_) => Some(OllamaThink::Level(OllamaThinkLevel::Low)),
            }
        },
    }
}

/// `PROVIDER`, compared after lowercasing: `ollama`, `local`, anything else OpenRouter.
/// Unset means OpenRouter.
pub open spec fn provider_of(v: Option<Seq<char>>) -> Provider {
    match v {
        None => Provider::OpenRouter,
        Some(s) => if unicode_lowercase(s) == "ollama"@ {
            Provider::Ollama
        } else if unicode_lowercase(s) == "local"@ {
            Provider::Local
        } else {
            Provider::OpenRouter
        },
    }
}

fn provider_from_env(env: &EnvSnapshot) -> (r: Provider)
    ensures
        r == provider_of(opt_str(env.provider)),
{
    let l = match &env.provider {
        Some(s) => to_lowercase(s.as_str()),
        None => {
            return Provider::OpenRouter;
        },
    };
    if str_eq(l.as_str(), "ollama") {
        Provider::Ollama
    } else if str_eq(l.as_str(), "local") {
        Provider::Local
    } else {
        Provider::OpenRouter
    }
}

/// The value of an environment string, or `default` when unset.
pub open spec fn or_default(v: Option<Seq<char>>, default: Seq<char>) -> Seq<char> {
    match v {
        Some(s) => s,
        None => default,
    }
}

fn string_or(v: &Option<String>, default: &str) -> (r: String)
    ensures
        r@ == or_default(opt_str(*v), default@),
{
    match v {
        Some(s) => s.clone(),
        None => owned(default),
    }
}

/// An unsigned environment value, `default` when unset or unparsable.
pub open spec fn number_or(v: Option<Seq<char>>, max: u64, default: int) -> int {
    match v {
        Some(s) => match parsed_unsigned(s, max as int) {
            Some(n) => n,
            None => default,
        },
        None => default,
    }
}

fn number_from(v: &Option<String>, max: u64) -> (r: Option<u64>)
    ensures
        r == (match opt_str(*v) {
            Some(s) => match parsed_unsigned(s, max as int) {
                Some(n) => Some(n as u64),
                None => None,
            },
            None => None,
        }),
        r matches Some(n) ==> n <= max,
        forall|s: Seq<char>| opt_str(*v) == Some(s) ==> (parsed_unsigned(s, max as int) matches Some(n) ==> 0 <= n <= max),
{
    match v {
        Some(s) => parse_unsigned(s.as_str(), max),
        None => None,
    }
}

impl Config {
    /// Assembles the configuration from environment values, applying the documented
    /// defaults. Reasoning settings are read only for the provider that uses them.
    pub fn from_env(env: &EnvSnapshot) -> (c: Config)
        ensures
            c.provider == provider_of(opt_str(env.provider)),
            c.model@ == or_default(opt_str(env.model), "google/gemini-2.5-flash-lite"@),
            opt_str(c.openrouter_api_key) == opt_str(env.openrouter_api_key),
            c.ollama_base_url@ == or_default(opt_str(env.ollama_base_url), "http://localhost:11434"@),
            c.openrouter_base_url@ == or_default(
                opt_str(env.openrouter_base_url),
                "https://openrouter.ai/api/v1"@,
            ),
            c.openrouter_reasoning == (if c.provider == Provider::OpenRouter {
                openrouter_reasoning_of(
                    opt_str(env.openrouter_reasoning_effort),
                    opt_str(env.openrouter_reasoning_summary),
                )
            } else {
                None
            }),
            c.ollama_think == (if c.provider == Provider::Ollama {
                ollama_think_of(opt_str(env.ollama_think))
            } else {
                None
            }),
            c.streaming_enabled == env_bool_of(opt_str(env.streaming), true),
            c.skip_confirmations == env_bool_of(opt_str(env.skip_confirmations), false),
            c.context_max_tokens == number_or(
                opt_str(env.context_max_tokens),
                usize::MAX as u64,
                128000,
            ),
            c.local_model_repo@ == or_default(
                opt_str(env.local_model_repo),
                "Qwen/Qwen2.5-1.5B-Instruct-GGUF"@,
            ),
            c.local_model_file@ == or_default(
                opt_str(env.local_model_file),
                "qwen2.5-1.5b-instruct-q4_k_m.gguf"@,
            ),
            opt_str(c.local_model_path) == opt_str(env.local_model_path),
            c.local_context_tokens == number_or(
                opt_str(env.local_context_tokens),
                u32::MAX as u64,
                8192,
            ),
            c.local_gpu_layers == number_or(opt_str(env.local_gpu_layers), u32::MAX as u64, 0),
            c.local_threads == (match opt_str(env.local_threads) {
                Some(s) => match parsed_unsigned(s, (usize::MAX as u64) as int) {
                    Some(n) => Some(n as usize),
                    None => None,
                },
                None => None,
            }),
            c.local_max_output_tokens == number_or(
                opt_str(env.local_max_output_tokens),
                usize::MAX as u64,
                1024,
            ),
            c.tool_display_verbosity == tool_display_verbosity_of(
                opt_str(env.tool_display_verbosity),
            ),
            c.thinking_display == thinking_display_of(opt_str(env.thinking_display)),
    {
        let provider = provider_from_env(env);
        let openrouter_reasoning = if provider == Provider::OpenRouter {
            openrouter_reasoning_from_env(env)
        } else {
            None
        };
        let ollama_think = if provider == Provider::Ollama {
            ollama_think_from_env(env)
        } else {
            None
        };
        let context_max_tokens = match number_from(&env.context_max_tokens, usize::MAX as u64) {
            Some(n) => n as usize,
            None => 128000,
        };
        let local_context_tokens = match number_from(&env.local_context_tokens, u32::MAX as u64) {
            Some(n) => n as u32,
            None => 8192,
        };
        let local_gpu_layers = match number_from(&env.local_gpu_layers, u32::MAX as u64) {
            Some(n) => n as u32,
            None => 0,
        };
        let local_threads = match number_from(&env.local_threads, usize::MAX as u64) {
            Some(n) => Some(n as usize),
            None => None,
        };
        let local_max_output_tokens = match number_from(
            &env.local_max_output_tokens,
            usize::MAX as u64,
        ) {
            Some(n) => n as usize,
            None => 1024,
        };
        Config {
            provider,
            model: string_or(&env.model, "google/gemini-2.5-flash-lite"),
            openrouter_api_key: crate::types::copy_opt_str(&env.openrouter_api_key),
            ollama_base_url: string_or(&env.ollama_base_url, "http://localhost:11434"),
            openrouter_base_url: string_or(&env.openrouter_base_url, "https://openrouter.ai/api/v1"),
            openrouter_reasoning,
            ollama_think,
            streaming_enabled: env_bool(&env.streaming, true),
            skip_confirmations: env_bool(&env.skip_confirmations, false),
            context_max_tokens,
            local_model_repo: string_or(&env.local_model_repo, "Qwen/Qwen2.5-1.5B-Instruct-GGUF"),
            local_model_file: string_or(&env.local_model_file, "qwen2.5-1.5b-instruct-q4_k_m.gguf"),
            local_model_path: crate::types::copy_opt_str(&env.local_model_path),
            local_context_tokens,
            local_gpu_layers,
            local_threads,
            local_max_output_tokens,
            tool_display_verbosity: tool_display_verbosity_from_env(env),
            thinking_display: thinking_display_from_env(env),
        }
    }

    /// Applies command-line overrides. Switching to another provider re-reads the
    /// reasoning settings for the new provider from `env`; `skip_confirmations` can only
    /// be turned on.
    pub fn with_overrides(
        self,
        provider: Option<Provider>,
        model: Option<String>,
        streaming: Option<bool>,
        skip_confirmations: bool,
        env: &EnvSnapshot,
    ) -> (c: Config)
        ensures
            c == (Config {
                provider: match provider {
                    Some(p) => p,
                    None => self.provider,
                },
                model: match model {
                    Some(m) => m,
                    None => self.model,
                },
                streaming_enabled: match streaming {
                    Some(s) => s,
                    None => self.streaming_enabled,
                },
                skip_confirmations: self.skip_confirmations || skip_confirmations,
                openrouter_reasoning: match provider {
                    Some(p) => if p == self.provider {
                        self.openrouter_reasoning
                    } else if p == Provider::OpenRouter {
                        openrouter_reasoning_of(
                            opt_str(env.openrouter_reasoning_effort),
                            opt_str(env.openrouter_reasoning_summary),
                        )
                    } else {
                        None
                    },
                    None => self.openrouter_reasoning,
                },
                ollama_think: match provider {
                    Some(p) => if p == self.provider {
                        self.ollama_think
                    } else if p == Provider::Ollama {
                        ollama_think_of(opt_str(env.ollama_think))
                    } else {
                        None
                    },
                    None => self.ollama_think,
                },
                ..self
            }),
    {
        let mut c = self;
        if let Some(p) = provider {
            if p != c.provider {
                c.openrouter_reasoning = if p == Provider::OpenRouter {
                    openrouter_reasoning_from_env(env)
                } else {
                    None
                };
                c.ollama_think = if p == Provider::Ollama {
                    ollama_think_from_env(env)
                } else {
                    None
                };
            }
            c.provider = p;
        }
        if let Some(m) = model {
            c.model = m;
        }
        if let Some(s) = streaming {
            c.streaming_enabled = s;
        }
        if skip_confirmations {
            c.skip_confirmations = true;
        }
        c
    }
}


/// Why the interface cannot start with OpenRouter: no API key.
pub const MISSING_KEY_TEXT: &'static str = "Error: OPENROUTER_API_KEY is not set.\n\nEither:\n  1. Set it in ~/.config/foxmayn-cowork/.env:\n     OPENROUTER_API_KEY=sk-or-\u{2026}\n  2. Export it in your shell profile:\n     export OPENROUTER_API_KEY=sk-or-\u{2026}\n  3. Set PROVIDER=ollama (or pass --provider ollama) to use a local\n     Ollama instance instead\n  4. Set PROVIDER=local for fully offline inference (no API key required)\n\nSee README.md for full setup instructions.";

/// Checks what must hold before the interface starts: OpenRouter needs an API key that
/// is not empty.
pub fn preflight(config: &Config) -> (r: Result<(), String>)
    ensures
        r is Err <==> (config.provider == Provider::OpenRouter && match config.openrouter_api_key {
            Some(k) => k@.len() == 0,
            None => true,
        }),
        r matches Err(m) ==> m@ == MISSING_KEY_TEXT@,
{
    if let Provider::OpenRouter = config.provider {
        let missing = match &config.openrouter_api_key {
            Some(k) => k.as_str().is_empty(),
            None => true,
        };
        if missing {
            return Err(String::from_str(MISSING_KEY_TEXT));
        }
    }
    Ok(())
}

} // verus!
