//! Chat messages, tool calls and the reasoning settings sent to the providers.
use vstd::prelude::*;

use crate::json::{Json, JsonValue};
use crate::text::{chars_of, concat3, owned, str_eq, to_lowercase, trim, trim_str, unicode_lowercase};

verus! {

// ── Ollama `think` ────────────────────────────────────────────────────────────

/// Ollama `think` level for models that accept one.
#[derive(Debug, Clone, Copy, PartialEq, Eq, Structural)]
pub enum OllamaThinkLevel {
    High,
    Medium,
    Low,
}

/// Ollama `think`: a boolean, or a level.
#[derive(Debug, Clone, Copy, PartialEq, Eq, Structural)]
pub enum OllamaThink {
    OnOff(bool),
    Level(OllamaThinkLevel),
}

/// The text after trimming and lowercasing, which the keyword parsers compare.
pub open spec fn normalized(s: Seq<char>) -> Seq<char> {
    unicode_lowercase(trim(s))
}

/// `s.trim().to_lowercase()`.
pub fn normalize(s: &str) -> (r: String)
    ensures
        r@ == normalized(s@),
{
    let t = trim_str(s);
    to_lowercase(t.as_str())
}

pub open spec fn think_level_of(l: Seq<char>) -> Option<OllamaThinkLevel> {
    if l == "high"@ {
        Some(OllamaThinkLevel::High)
    } else if l == "medium"@ {
        Some(OllamaThinkLevel::Medium)
    } else if l == "low"@ {
        Some(OllamaThinkLevel::Low)
    } else {
        None
    }
}

pub open spec fn think_level_error(l: Seq<char>) -> Seq<char> {
    "unknown Ollama think level: "@ + l
        + " (expected true, false, high, medium, low, or minimal as alias for low)"@
}

impl OllamaThinkLevel {
    /// Parses a level from text that is already trimmed and lowercased.
    pub fn from_normalized(l: &str) -> (r: Result<OllamaThinkLevel, String>)
        ensures
            r is Ok <==> think_level_of(l@) is Some,
            r matches Ok(v) ==> think_level_of(l@) == Some(v),
            r matches Err(m) ==> m@ == think_level_error(l@),
    {
        if str_eq(l, "high") {
            Ok(OllamaThinkLevel::High)
        } else if str_eq(l, "medium") {
            Ok(OllamaThinkLevel::Medium)
        } else if str_eq(l, "low") {
            Ok(OllamaThinkLevel::Low)
        } else {
            Err(
                concat3(
                    "unknown Ollama think level: ",
                    l,
                    " (expected true, false, high, medium, low, or minimal as alias for low)",
                ),
            )
        }
    }

    /// `high`, `medium` or `low`, ignoring surrounding whitespace and case.
    pub fn parse(s: &str) -> (r: Result<OllamaThinkLevel, String>)
        ensures
            r is Ok <==> think_level_of(normalized(s@)) is Some,
            r matches Ok(v) ==> think_level_of(normalized(s@)) == Some(v),
            r matches Err(m) ==> m@ == think_level_error(normalized(s@)),
    {
        let l = normalize(s);
        OllamaThinkLevel::from_normalized(l.as_str())
    }
}

pub open spec fn is_word_ci(t: Seq<char>, w: Seq<char>) -> bool {
    crate::text::eq_ignore_ascii_case(t, w)
}

/// What `OllamaThink` text means once trimmed; `None` when it names a level, which
/// is then parsed by [`OllamaThinkLevel::parse`].
pub open spec fn think_switch_of(t: Seq<char>) -> Option<OllamaThink> {
    if is_word_ci(t, "true"@) || is_word_ci(t, "1"@) || is_word_ci(t, "on"@) {
        Some(OllamaThink::OnOff(true))
    } else if is_word_ci(t, "false"@) || is_word_ci(t, "0"@) || is_word_ci(t, "off"@) {
        Some(OllamaThink::OnOff(false))
    } else if is_word_ci(t, "minimal"@) {
        Some(OllamaThink::Level(OllamaThinkLevel::Low))
    } else {
        None
    }
}

impl OllamaThink {
    /// `true`/`1`/`on`, `false`/`0`/`off` (any ASCII case), `minimal` as `low`, or a level.
    pub fn parse(s: &str) -> (r: Result<OllamaThink, String>)
        ensures
            trim(s@).len() == 0 ==> (r matches Err(m) && m@ == "empty"@),
            trim(s@).len() > 0 && think_switch_of(trim(s@)) is Some ==> r == Ok::<
                OllamaThink,
                String,
            >(think_switch_of(trim(s@)).unwrap()),
            trim(s@).len() > 0 && think_switch_of(trim(s@)) is None ==> (match r {
                Ok(v) => think_level_of(normalized(trim(s@))) == Some(v->Level_0) && v is Level,
                Err(m) => think_level_of(normalized(trim(s@))) is None && m@ == think_level_error(
                    normalized(trim(s@)),
                ),
            }),
    {
        let t = trim_str(s);
        if t.as_str().is_empty() {
            return Err("empty".to_owned());
        }
        let ts = t.as_str();
        if crate::text::str_eq_ignore_ascii_case(ts, "true") || crate::text::str_eq_ignore_ascii_case(
            ts,
            "1",
        ) || crate::text::str_eq_ignore_ascii_case(ts, "on") {
            return Ok(OllamaThink::OnOff(true));
        }
        if crate::text::str_eq_ignore_ascii_case(ts, "false")
            || crate::text::str_eq_ignore_ascii_case(ts, "0")
            || crate::text::str_eq_ignore_ascii_case(ts, "off") {
            return Ok(OllamaThink::OnOff(false));
        }
        if crate::text::str_eq_ignore_ascii_case(ts, "minimal") {
            return Ok(OllamaThink::Level(OllamaThinkLevel::Low));
        }
        match OllamaThinkLevel::parse(ts) {
            Ok(l) => Ok(OllamaThink::Level(l)),
            Err(e) => Err(e),
        }
    }
}

// ── OpenRouter `reasoning` ────────────────────────────────────────────────────

/// OpenRouter reasoning summary verbosity.
#[derive(Debug, Clone, Copy, PartialEq, Eq, Structural)]
pub enum ReasoningSummaryVerbosity {
    Auto,
    Concise,
    Detailed,
}

/// OpenRouter reasoning effort.
#[derive(Debug, Clone, Copy, PartialEq, Eq, Structural)]
pub enum ReasoningEffort {
    XHigh,
    High,
    Medium,
    Low,
    Minimal,
    NoEffort,
}

pub open spec fn effort_of(l: Seq<char>) -> Option<ReasoningEffort> {
    if l == "xhigh"@ || l == "x-high"@ {
        Some(ReasoningEffort::XHigh)
    } else if l == "high"@ {
        Some(ReasoningEffort::High)
    } else if l == "medium"@ {
        Some(ReasoningEffort::Medium)
    } else if l == "low"@ {
        Some(ReasoningEffort::Low)
    } else if l == "minimal"@ {
        Some(ReasoningEffort::Minimal)
    } else if l == "none"@ {
        Some(ReasoningEffort::NoEffort)
    } else {
        None
    }
}

pub open spec fn effort_error(l: Seq<char>) -> Seq<char> {
    "unknown OPENROUTER_REASONING_EFFORT: "@ + l
        + " (expected xhigh, high, medium, low, minimal, none, or 'off' to disable)"@
}

impl ReasoningEffort {
    /// Parses an effort from text that is already trimmed and lowercased.
    pub fn from_normalized(l: &str) -> (r: Result<ReasoningEffort, String>)
        ensures
            r is Ok <==> effort_of(l@) is Some,
            r matches Ok(v) ==> effort_of(l@) == Some(v),
            r matches Err(m) ==> m@ == effort_error(l@),
    {
        if str_eq(l, "xhigh") || str_eq(l, "x-high") {
            Ok(ReasoningEffort::XHigh)
        } else if str_eq(l, "high") {
            Ok(ReasoningEffort::High)
        } else if str_eq(l, "medium") {
            Ok(ReasoningEffort::Medium)
        } else if str_eq(l, "low") {
            Ok(ReasoningEffort::Low)
        } else if str_eq(l, "minimal") {
            Ok(ReasoningEffort::Minimal)
        } else if str_eq(l, "none") {
            Ok(ReasoningEffort::NoEffort)
        } else {
            Err(
                concat3(
                    "unknown OPENROUTER_REASONING_EFFORT: ",
                    l,
                    " (expected xhigh, high, medium, low, minimal, none, or 'off' to disable)",
                ),
            )
        }
    }

    /// An effort name, ignoring surrounding whitespace and case.
    pub fn parse(s: &str) -> (r: Result<ReasoningEffort, String>)
        ensures
            r is Ok <==> effort_of(normalized(s@)) is Some,
            r matches Ok(v) ==> effort_of(normalized(s@)) == Some(v),
            r matches Err(m) ==> m@ == effort_error(normalized(s@)),
    {
        let l = normalize(s);
        ReasoningEffort::from_normalized(l.as_str())
    }
}

pub open spec fn summary_of(l: Seq<char>) -> Option<ReasoningSummaryVerbosity> {
    if l == "auto"@ {
        Some(ReasoningSummaryVerbosity::Auto)
    } else if l == "concise"@ {
        Some(ReasoningSummaryVerbosity::Concise)
    } else if l == "detailed"@ {
        Some(ReasoningSummaryVerbosity::Detailed)
    } else {
        None
    }
}

pub open spec fn summary_error(l: Seq<char>) -> Seq<char> {
    "unknown OPENROUTER_REASONING_SUMMARY: "@ + l
        + " (expected auto, concise, detailed, or 'off' to omit)"@
}

impl ReasoningSummaryVerbosity {
    /// Parses a verbosity from text that is already trimmed and lowercased.
    pub fn from_normalized(l: &str) -> (r: Result<ReasoningSummaryVerbosity, String>)
        ensures
            r is Ok <==> summary_of(l@) is Some,
            r matches Ok(v) ==> summary_of(l@) == Some(v),
            r matches Err(m) ==> m@ == summary_error(l@),
    {
        if str_eq(l, "auto") {
            Ok(ReasoningSummaryVerbosity::Auto)
        } else if str_eq(l, "concise") {
            Ok(ReasoningSummaryVerbosity::Concise)
        } else if str_eq(l, "detailed") {
            Ok(ReasoningSummaryVerbosity::Detailed)
        } else {
            Err(
                concat3(
                    "unknown OPENROUTER_REASONING_SUMMARY: ",
                    l,
                    " (expected auto, concise, detailed, or 'off' to omit)",
                ),
            )
        }
    }

    /// A verbosity name, ignoring surrounding whitespace and case.
    pub fn parse(s: &str) -> (r: Result<ReasoningSummaryVerbosity, String>)
        ensures
            r is Ok <==> summary_of(normalized(s@)) is Some,
            r matches Ok(v) ==> summary_of(normalized(s@)) == Some(v),
            r matches Err(m) ==> m@ == summary_error(normalized(s@)),
    {
        let l = normalize(s);
        ReasoningSummaryVerbosity::from_normalized(l.as_str())
    }
}

/// OpenRouter `reasoning` object; an absent field is omitted on the wire.
#[derive(Debug, Clone, Copy, PartialEq, Eq, Structural)]
pub struct RequestReasoning {
    pub effort: Option<ReasoningEffort>,
    pub summary: Option<ReasoningSummaryVerbosity>,
}

// ── Streaming ─────────────────────────────────────────────────────────────────

/// One event of a streamed model reply.
#[derive(Debug)]
pub enum StreamChunk {
    ContentDelta(String),
    ThinkingDelta(String),
    ToolCallDelta { index: usize, id: Option<String>, name: Option<String>, arguments_fragment: String },
    Done,
    Error(String),
}

/// The mathematical form of a streamed chunk.
pub enum ChunkView {
    ContentDelta(Seq<char>),
    ThinkingDelta(Seq<char>),
    ToolCallDelta {
        index: usize,
        id: Option<Seq<char>>,
        name: Option<Seq<char>>,
        arguments_fragment: Seq<char>,
    },
    Done,
    Error(Seq<char>),
}

impl View for StreamChunk {
    type V = ChunkView;

    open spec fn view(&self) -> ChunkView {
        match self {
            StreamChunk::ContentDelta(t) => ChunkView::ContentDelta(t@),
            StreamChunk::ThinkingDelta(t) => ChunkView::ThinkingDelta(t@),
            StreamChunk::ToolCallDelta { index, id, name, arguments_fragment } =>
                ChunkView::ToolCallDelta {
                    index: *index,
                    id: opt_str(*id),
                    name: opt_str(*name),
                    arguments_fragment: arguments_fragment@,
                },
            StreamChunk::Done => ChunkView::Done,
            StreamChunk::Error(e) => ChunkView::Error(e@),
        }
    }
}

pub open spec fn chunks_view(v: Seq<StreamChunk>) -> Seq<ChunkView> {
    v.map_values(|c: StreamChunk| c@)
}

// ── Messages ──────────────────────────────────────────────────────────────────

/// A requested function invocation: its name and JSON arguments.
#[derive(Debug)]
pub struct FunctionCall {
    pub name: String,
    pub arguments: JsonValue,
}

/// A tool call of an assistant message.
#[derive(Debug)]
pub struct ToolCall {
    pub id: Option<String>,
    pub function: FunctionCall,
}

/// A chat message in provider-neutral form.
#[derive(Debug)]
pub struct Message {
    pub role: String,
    pub content: String,
    pub tool_calls: Option<Vec<ToolCall>>,
    pub name: Option<String>,
    /// Ties a `tool` message to the call it answers.
    pub tool_call_id: Option<String>,
}

pub struct FunctionCallView {
    pub name: Seq<char>,
    pub arguments: Json,
}

pub struct ToolCallView {
    pub id: Option<Seq<char>>,
    pub function: FunctionCallView,
}

pub struct MessageView {
    pub role: Seq<char>,
    pub content: Seq<char>,
    pub tool_calls: Option<Seq<ToolCallView>>,
    pub name: Option<Seq<char>>,
    pub tool_call_id: Option<Seq<char>>,
}

pub open spec fn opt_str(o: Option<String>) -> Option<Seq<char>> {
    match o {
        Some(s) => Some(s@),
        None => None,
    }
}

impl View for FunctionCall {
    type V = FunctionCallView;

    open spec fn view(&self) -> FunctionCallView {
        FunctionCallView { name: self.name@, arguments: self.arguments@ }
    }
}

impl View for ToolCall {
    type V = ToolCallView;

    open spec fn view(&self) -> ToolCallView {
        ToolCallView { id: opt_str(self.id), function: self.function@ }
    }
}

pub open spec fn calls_view(v: Seq<ToolCall>) -> Seq<ToolCallView> {
    v.map_values(|c: ToolCall| c@)
}

impl View for Message {
    type V = MessageView;

    open spec fn view(&self) -> MessageView {
        MessageView {
            role: self.role@,
            content: self.content@,
            tool_calls: match self.tool_calls {
                Some(v) => Some(calls_view(v@)),
                None => None,
            },
            name: opt_str(self.name),
            tool_call_id: opt_str(self.tool_call_id),
        }
    }
}

pub open spec fn messages_view(v: Seq<Message>) -> Seq<MessageView> {
    v.map_values(|m: Message| m@)
}

pub fn copy_opt_str(o: &Option<String>) -> (r: Option<String>)
    ensures
        opt_str(r) == opt_str(*o),
{
    match o {
        Some(s) => Some(s.clone()),
        None => None,
    }
}

impl FunctionCall {
    /// A copy with the same view.
    pub fn duplicate(&self) -> (r: FunctionCall)
        ensures
            r@ == self@,
    {
        FunctionCall { name: self.name.clone(), arguments: self.arguments.duplicate() }
    }
}

impl ToolCall {
    /// A copy with the same view.
    pub fn duplicate(&self) -> (r: ToolCall)
        ensures
            r@ == self@,
    {
        ToolCall { id: copy_opt_str(&self.id), function: self.function.duplicate() }
    }
}

/// A copy of a list of tool calls, with the same views.
pub fn copy_calls(v: &Vec<ToolCall>) -> (r: Vec<ToolCall>)
    ensures
        calls_view(r@) == calls_view(v@),
{
    let mut r: Vec<ToolCall> = Vec::new();
    let mut i: usize = 0;
    while i < v.len()
        invariant
            0 <= i <= v.len(),
            r.len() == i,
            forall|k: int| 0 <= k < i ==> (#[trigger] r@[k])@ == v@[k]@,
        decreases v.len() - i,
    {
        r.push(v[i].duplicate());
        i += 1;
    }
    assert(calls_view(r@) =~= calls_view(v@));
    r
}

impl Message {
    /// A copy with the same view.
    pub fn duplicate(&self) -> (r: Message)
        ensures
            r@ == self@,
    {
        let tool_calls = match &self.tool_calls {
            Some(v) => Some(copy_calls(v)),
            None => None,
        };
        Message {
            role: self.role.clone(),
            content: self.content.clone(),
            tool_calls,
            name: copy_opt_str(&self.name),
            tool_call_id: copy_opt_str(&self.tool_call_id),
        }
    }

    /// A `user` message.
    pub fn user(content: String) -> (r: Message)
        ensures
            r@ == (MessageView {
                role: "user"@,
                content: content@,
                tool_calls: None,
                name: None,
                tool_call_id: None,
            }),
    {
        Message {
            role: owned("user"),
            content,
            tool_calls: None,
            name: None,
            tool_call_id: None,
        }
    }

    /// A `system` message.
    pub fn system(content: String) -> (r: Message)
        ensures
            r@ == (MessageView {
                role: "system"@,
                content: content@,
                tool_calls: None,
                name: None,
                tool_call_id: None,
            }),
    {
        Message {
            role: owned("system"),
            content,
            tool_calls: None,
            name: None,
            tool_call_id: None,
        }
    }

    /// A `tool` message carrying a tool's output, named after the tool and tied to
    /// the call it answers.
    pub fn tool_result(tool_name: String, content: String, tool_call_id: Option<String>) -> (r:
        Message)
        ensures
            r@ == (MessageView {
                role: "tool"@,
                content: content@,
                tool_calls: None,
                name: Some(tool_name@),
                tool_call_id: opt_str(tool_call_id),
            }),
    {
        Message {
            role: owned("tool"),
            content,
            tool_calls: None,
            name: Some(tool_name),
            tool_call_id,
        }
    }
}

/// A copy of a list of messages, with the same views.
pub fn copy_messages(v: &Vec<Message>) -> (r: Vec<Message>)
    ensures
        messages_view(r@) == messages_view(v@),
{
    let mut r: Vec<Message> = Vec::new();
    let mut i: usize = 0;
    while i < v.len()
        invariant
            0 <= i <= v.len(),
            r.len() == i,
            forall|k: int| 0 <= k < i ==> (#[trigger] r@[k])@ == v@[k]@,
        decreases v.len() - i,
    {
        r.push(v[i].duplicate());
        i += 1;
    }
    assert(messages_view(r@) =~= messages_view(v@));
    r
}

/// A tool the model may call: its name, description and JSON Schema parameters.
#[derive(Debug)]
pub struct ToolFunction {
    pub name: String,
    pub description: String,
    pub parameters: JsonValue,
}

/// A tool offered to the model; its type is always `function`.
#[derive(Debug)]
pub struct Tool {
    pub kind: String,
    pub function: ToolFunction,
}

pub struct ToolView {
    pub kind: Seq<char>,
    pub name: Seq<char>,
    pub description: Seq<char>,
    pub parameters: Json,
}

impl View for Tool {
    type V = ToolView;

    open spec fn view(&self) -> ToolView {
        ToolView {
            kind: self.kind@,
            name: self.function.name@,
            description: self.function.description@,
            parameters: self.function.parameters@,
        }
    }
}

/// One chat request as sent to a provider.
#[derive(Debug)]
pub struct ChatRequest {
    pub model: String,
    pub messages: Vec<Message>,
    pub tools: Vec<Tool>,
    pub stream: bool,
    /// OpenRouter only; omitted when `None`.
    pub reasoning: Option<RequestReasoning>,
    /// Ollama only; omitted when `None`.
    pub think: Option<OllamaThink>,
}

} // verus!
