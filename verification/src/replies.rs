//! The replies of the two model providers, as their JSON decodes, turned into messages and
//! stream chunks. Ollama sends tool calls whole, with parsed arguments and often without
//! an id; OpenRouter sends arguments as JSON text and streams calls in fragments.
use vstd::prelude::*;

use crate::agent::{generate_tool_call_id, tool_call_id_text};
use crate::error::AppError;
use crate::json::{array_member, serde_json_text, to_json_string, Json, JsonValue};
use crate::text::{concat2, owned};
use crate::types::{
    calls_view, chunks_view, copy_opt_str, opt_str, ChunkView, FunctionCall, FunctionCallView,
    Message, MessageView, StreamChunk, ToolCall, ToolCallView,
};

verus! {

// ── Ollama ────────────────────────────────────────────────────────────────────

/// A tool call as Ollama sends it: whole, its arguments already a JSON object.
pub struct OllamaToolCall {
    /// The id newer Ollama versions send.
    pub id: Option<String>,
    pub name: String,
    pub arguments: JsonValue,
}

pub struct OllamaCallView {
    pub id: Option<Seq<char>>,
    pub name: Seq<char>,
    pub arguments: Json,
}

impl View for OllamaToolCall {
    type V = OllamaCallView;

    open spec fn view(&self) -> OllamaCallView {
        OllamaCallView { id: opt_str(self.id), name: self.name@, arguments: self.arguments@ }
    }
}

pub open spec fn ollama_calls_view(v: Seq<OllamaToolCall>) -> Seq<OllamaCallView> {
    v.map_values(|c: OllamaToolCall| c@)
}

/// The counter after one id is drawn from it; it wraps around.
pub open spec fn next_id(n: u64) -> u64 {
    if n == u64::MAX {
        0
    } else {
        (n + 1) as u64
    }
}

/// Draws a fresh tool-call id from `counter`.
pub fn fresh_id(counter: &mut u64) -> (id: String)
    ensures
        id@ == tool_call_id_text(*old(counter) as nat),
        *final(counter) == next_id(*old(counter)),
{
    let id = generate_tool_call_id(*counter);
    if *counter == u64::MAX {
        *counter = 0;
    } else {
        *counter = *counter + 1;
    }
    id
}

/// The stream chunks that hand over `calls[from..]` at the end of a reply, each under its
/// position, with its own id or else a fresh one drawn from `n`; and the counter after.
pub open spec fn flushed(calls: Seq<OllamaCallView>, from: int, n: u64) -> (Seq<ChunkView>, u64)
    decreases calls.len() - from,
{
    if from < 0 || from >= calls.len() {
        (Seq::empty(), n)
    } else {
        let c = calls[from];
        let (id, n1) = match c.id {
            Some(i) => (i, n),
            None => (tool_call_id_text(n as nat), next_id(n)),
        };
        let rest = flushed(calls, from + 1, n1);
        (
            seq![
                ChunkView::ToolCallDelta {
                    index: from as usize,
                    id: Some(id),
                    name: Some(c.name),
                    arguments_fragment: serde_json_text(c.arguments),
                },
            ] + rest.0,
            rest.1,
        )
    }
}

/// The chunks that hand over complete tool calls, in order.
pub fn flush_calls(calls: &Vec<OllamaToolCall>, counter: &mut u64) -> (r: Vec<StreamChunk>)
    ensures
        chunks_view(r@) == flushed(ollama_calls_view(calls@), 0, *old(counter)).0,
        *final(counter) == flushed(ollama_calls_view(calls@), 0, *old(counter)).1,
{
    let ghost v = ollama_calls_view(calls@);
    let ghost whole = flushed(v, 0, *counter);
    let mut out: Vec<StreamChunk> = Vec::new();
    let mut i: usize = 0;
    while i < calls.len()
        invariant
            0 <= i <= calls.len(),
            v == ollama_calls_view(calls@),
            chunks_view(out@) + flushed(v, i as int, *counter).0 == whole.0,
            flushed(v, i as int, *counter).1 == whole.1,
        decreases calls.len() - i,
    {
        let c = &calls[i];
        let ghost before = *counter;
        let id = match &c.id {
            Some(id) => id.clone(),
            None => fresh_id(counter),
        };
        let chunk = StreamChunk::ToolCallDelta {
            index: i,
            id: Some(id),
            name: Some(c.name.clone()),
            arguments_fragment: to_json_string(&c.arguments),
        };
        proof {
            assert(v[i as int] == calls@[i as int]@);
            let rest = flushed(v, i + 1, *counter);
            assert(flushed(v, i as int, before).0 == seq![chunk@] + rest.0);
            assert(chunks_view(out@.push(chunk)) =~= chunks_view(out@).push(chunk@));
            assert(chunks_view(out@).push(chunk@) + rest.0 =~= chunks_view(out@) + (seq![chunk@] + rest.0));
        }
        out.push(chunk);
        i += 1;
    }
    out
}

/// One line of an Ollama reply stream, as its JSON decodes.
pub struct NdjsonMessage {
    pub content: Option<String>,
    /// Reasoning, sent when thinking is on for a model that thinks.
    pub thinking: Option<String>,
    pub tool_calls: Option<Vec<OllamaToolCall>>,
}

pub struct NdjsonLine {
    pub message: Option<NdjsonMessage>,
    pub done: bool,
}

/// A text delta when the text is there and not empty.
pub open spec fn text_delta(o: Option<String>, thinking: bool) -> Seq<ChunkView> {
    match o {
        Some(t) => if t@.len() > 0 {
            if thinking {
                seq![ChunkView::ThinkingDelta(t@)]
            } else {
                seq![ChunkView::ContentDelta(t@)]
            }
        } else {
            Seq::empty()
        },
        None => Seq::empty(),
    }
}

/// The text chunks of a line: its reasoning, then its content.
pub open spec fn line_chunks(line: NdjsonLine) -> Seq<ChunkView> {
    match line.message {
        Some(m) => text_delta(m.thinking, true) + text_delta(m.content, false),
        None => Seq::empty(),
    }
}

/// The tool calls kept after a line: the line's when it has some, else those kept before.
pub open spec fn latest_after(line: NdjsonLine, latest: Option<Seq<OllamaCallView>>) -> Option<
    Seq<OllamaCallView>,
> {
    match line.message {
        Some(m) => match m.tool_calls {
            Some(c) => if c.len() > 0 {
                Some(ollama_calls_view(c@))
            } else {
                latest
            },
            None => latest,
        },
        None => latest,
    }
}

pub open spec fn calls_or_none(o: Option<Seq<OllamaCallView>>) -> Seq<OllamaCallView> {
    match o {
        Some(c) => c,
        None => Seq::empty(),
    }
}

/// The text chunk of `o`, when it is there and not empty.
pub(crate) fn push_text(out: &mut Vec<StreamChunk>, o: &Option<String>, thinking: bool)
    ensures
        chunks_view(final(out)@) == chunks_view(old(out)@) + text_delta(*o, thinking),
{
    match o {
        Some(t) => {
            if !t.as_str().is_empty() {
                let c = if thinking {
                    StreamChunk::ThinkingDelta(t.clone())
                } else {
                    StreamChunk::ContentDelta(t.clone())
                };
                out.push(c);
                assert(chunks_view(out@) =~= chunks_view(old(out)@) + text_delta(*o, thinking));
            } else {
                assert(chunks_view(out@) =~= chunks_view(old(out)@) + text_delta(*o, thinking));
            }
        },
        None => {
            assert(chunks_view(out@) =~= chunks_view(old(out)@) + text_delta(*o, thinking));
        },
    }
}

// ── OpenRouter ────────────────────────────────────────────────────────────────

/// A fragment of a streamed tool call, as an OpenRouter delta decodes.
pub struct SseToolCallDelta {
    pub index: usize,
    pub id: Option<String>,
    pub name: Option<String>,
    pub arguments: Option<String>,
}

/// The delta of one streamed choice.
pub struct SseDelta {
    /// The model's reasoning, when reasoning is enabled (shown as thinking).
    pub reasoning: Option<String>,
    pub content: Option<String>,
    pub tool_calls: Option<Vec<SseToolCallDelta>>,
}

pub open spec fn delta_call_chunk(d: SseToolCallDelta) -> ChunkView {
    ChunkView::ToolCallDelta {
        index: d.index,
        id: opt_str(d.id),
        name: opt_str(d.name),
        arguments_fragment: match d.arguments {
            Some(a) => a@,
            None => Seq::empty(),
        },
    }
}

/// The chunks of one delta: its reasoning as thinking, its content, then each tool-call
/// fragment.
pub open spec fn delta_chunks(d: SseDelta) -> Seq<ChunkView> {
    text_delta(d.reasoning, true) + text_delta(d.content, false) + match d.tool_calls {
        Some(calls) => calls@.map_values(|c: SseToolCallDelta| delta_call_chunk(c)),
        None => Seq::empty(),
    }
}

/// The chunks of one streamed event: those of its first choice; none without a choice.
pub fn sse_chunks(choices: &Vec<SseDelta>) -> (r: Vec<StreamChunk>)
    ensures
        chunks_view(r@) == if choices.len() == 0 {
            Seq::<ChunkView>::empty()
        } else {
            delta_chunks(choices@[0])
        },
{
    let mut out: Vec<StreamChunk> = Vec::new();
    if choices.len() == 0 {
        return out;
    }
    let d = &choices[0];
    push_text(&mut out, &d.reasoning, true);
    push_text(&mut out, &d.content, false);
    let ghost head = chunks_view(out@);
    match &d.tool_calls {
        Some(calls) => {
            let ghost all = calls@.map_values(|c: SseToolCallDelta| delta_call_chunk(c));
            let mut i: usize = 0;
            while i < calls.len()
                invariant
                    0 <= i <= calls.len(),
                    all == calls@.map_values(|c: SseToolCallDelta| delta_call_chunk(c)),
                    chunks_view(out@) == head + all.take(i as int),
                decreases calls.len() - i,
            {
                let c = &calls[i];
                let arguments_fragment = match &c.arguments {
                    Some(a) => a.clone(),
                    None => String::new(),
                };
                let chunk = StreamChunk::ToolCallDelta {
                    index: c.index,
                    id: copy_opt_str(&c.id),
                    name: copy_opt_str(&c.name),
                    arguments_fragment,
                };
                assert(chunk@ == delta_call_chunk(calls@[i as int]));
                assert(all[i as int] == delta_call_chunk(calls@[i as int]));
                let ghost prev = out@;
                out.push(chunk);
                assert(chunks_view(out@) =~= chunks_view(prev).push(chunk@));
                assert(all.take(i + 1) =~= all.take(i as int).push(all[i as int]));
                assert(chunks_view(out@) =~= head + all.take(i + 1));
                i += 1;
            }
            assert(all.take(calls.len() as int) =~= all);
        },
        None => {
            assert(chunks_view(out@) =~= head + Seq::<ChunkView>::empty());
        },
    }
    out
}


// ── Whole replies ─────────────────────────────────────────────────────────────

/// A complete Ollama reply message, as it decodes.
pub struct OllamaReply {
    pub role: String,
    pub content: String,
    pub tool_calls: Option<Vec<OllamaToolCall>>,
}

/// The calls of a complete Ollama reply, each under a fresh id drawn from `n` (ids that
/// came with the reply are not used); and the counter after.
pub open spec fn numbered_calls(calls: Seq<OllamaCallView>, from: int, n: u64) -> (
    Seq<ToolCallView>,
    u64,
)
    decreases calls.len() - from,
{
    if from < 0 || from >= calls.len() {
        (Seq::empty(), n)
    } else {
        let c = calls[from];
        let rest = numbered_calls(calls, from + 1, next_id(n));
        (
            seq![
                ToolCallView {
                    id: Some(tool_call_id_text(n as nat)),
                    function: FunctionCallView { name: c.name, arguments: c.arguments },
                },
            ] + rest.0,
            rest.1,
        )
    }
}

/// A complete Ollama reply as a message.
pub fn ollama_message(reply: OllamaReply, counter: &mut u64) -> (r: Message)
    ensures
        r@ == (MessageView {
            role: reply.role@,
            content: reply.content@,
            tool_calls: match reply.tool_calls {
                Some(c) => Some(numbered_calls(ollama_calls_view(c@), 0, *old(counter)).0),
                None => None,
            },
            name: None,
            tool_call_id: None,
        }),
        *final(counter) == match reply.tool_calls {
            Some(c) => numbered_calls(ollama_calls_view(c@), 0, *old(counter)).1,
            None => *old(counter),
        },
{
    let tool_calls = match &reply.tool_calls {
        Some(calls) => {
            let ghost v = ollama_calls_view(calls@);
            let ghost whole = numbered_calls(v, 0, *counter);
            let mut out: Vec<ToolCall> = Vec::new();
            let mut i: usize = 0;
            while i < calls.len()
                invariant
                    0 <= i <= calls.len(),
                    v == ollama_calls_view(calls@),
                    calls_view(out@) + numbered_calls(v, i as int, *counter).0 == whole.0,
                    numbered_calls(v, i as int, *counter).1 == whole.1,
                decreases calls.len() - i,
            {
                let c = &calls[i];
                let ghost before = *counter;
                let id = fresh_id(counter);
                let call = ToolCall {
                    id: Some(id),
                    function: FunctionCall { name: c.name.clone(), arguments: c.arguments.duplicate() },
                };
                proof {
                    assert(v[i as int] == calls@[i as int]@);
                    let rest = numbered_calls(v, i + 1, *counter);
                    assert(numbered_calls(v, i as int, before).0 == seq![call@] + rest.0);
                    assert(calls_view(out@.push(call)) =~= calls_view(out@).push(call@));
                    assert(calls_view(out@).push(call@) + rest.0 =~= calls_view(out@) + (seq![call@] + rest.0));
                }
                out.push(call);
                i += 1;
            }
            assert(calls_view(out@) =~= whole.0);
            Some(out)
        },
        None => None,
    };
    Message { role: reply.role, content: reply.content, tool_calls, name: None, tool_call_id: None }
}

/// A tool call of an OpenRouter reply; its arguments, sent as JSON text, as they decoded,
/// or the decoder's message.
pub struct OpenRouterToolCall {
    pub id: String,
    pub name: String,
    pub arguments: Result<JsonValue, String>,
}

/// The message of the first choice of an OpenRouter reply, as it decodes.
pub struct OpenRouterReply {
    pub role: String,
    pub content: Option<String>,
    pub tool_calls: Option<Vec<OpenRouterToolCall>>,
}

/// The position of the first call whose arguments did not decode; the length when all did.
pub open spec fn first_unparsed(calls: Seq<OpenRouterToolCall>, from: int) -> int
    decreases calls.len() - from,
{
    if from < 0 || from >= calls.len() {
        calls.len() as int
    } else if calls[from].arguments is Err {
        from
    } else {
        first_unparsed(calls, from + 1)
    }
}

pub open spec fn parsed_call(c: OpenRouterToolCall) -> ToolCallView {
    ToolCallView {
        id: Some(c.id@),
        function: FunctionCallView {
            name: c.name@,
            arguments: match c.arguments {
                Ok(v) => v@,
                Err(_) => Json::Null,
            },
        },
    }
}

/// `r` is a refusal of the reply carrying exactly `msg`.
pub open spec fn llm_error<T>(r: Result<T, AppError>, msg: Seq<char>) -> bool {
    match r {
        Err(AppError::LlmError(m)) => m@ == msg,
        _ => false,
    }
}

/// `r` is a message whose view is `v`.
pub open spec fn ok_message(r: Result<Message, AppError>, v: MessageView) -> bool {
    match r {
        Ok(m) => m@ == v,
        Err(_) => false,
    }
}

pub open spec fn empty_choices_text() -> Seq<char> {
    "OpenRouter returned empty choices"@
}

pub open spec fn unparsed_text(c: OpenRouterToolCall) -> Seq<char> {
    "Failed to parse tool arguments for '"@ + c.name@ + "': "@ + match c.arguments {
        Err(e) => e@,
        Ok(_) => Seq::empty(),
    }
}

/// The message of an OpenRouter reply, from its first choice: refused when there is no
/// choice, or when the arguments of a call did not decode (the first such call is named).
pub fn openrouter_message(choice: Option<OpenRouterReply>) -> (r: Result<Message, AppError>)
    ensures
        match choice {
            None => llm_error(r, empty_choices_text()),
            Some(c) => match c.tool_calls {
                Some(calls) => if first_unparsed(calls@, 0) < calls.len() {
                    llm_error(r, unparsed_text(calls@[first_unparsed(calls@, 0)]))
                } else {
                    ok_message(
                        r,
                        MessageView {
                            role: c.role@,
                            content: match c.content {
                                Some(t) => t@,
                                None => Seq::empty(),
                            },
                            tool_calls: Some(calls@.map_values(|k: OpenRouterToolCall| parsed_call(k))),
                            name: None,
                            tool_call_id: None,
                        },
                    )
                },
                None => ok_message(
                    r,
                    MessageView {
                        role: c.role@,
                        content: match c.content {
                            Some(t) => t@,
                            None => Seq::empty(),
                        },
                        tool_calls: None,
                        name: None,
                        tool_call_id: None,
                    },
                ),
            },
        },
{
    let reply = match choice {
        None => {
            return Err(AppError::LlmError(owned("OpenRouter returned empty choices")));
        },
        Some(c) => c,
    };
    assert(choice == Some(reply));
    let tool_calls = match &reply.tool_calls {
        Some(calls) => {
            assert(reply.tool_calls == Some(*calls));
            let ghost all = calls@.map_values(|k: OpenRouterToolCall| parsed_call(k));
            let mut out: Vec<ToolCall> = Vec::new();
            let mut i: usize = 0;
            while i < calls.len()
                invariant
                    0 <= i <= calls.len(),
                    all == calls@.map_values(|k: OpenRouterToolCall| parsed_call(k)),
                    calls_view(out@) == all.take(i as int),
                    first_unparsed(calls@, 0) == first_unparsed(calls@, i as int),
                    choice == Some(reply),
                    reply.tool_calls == Some(*calls),
                decreases calls.len() - i,
            {
                let c = &calls[i];
                match &c.arguments {
                    Err(e) => {
                        assert(first_unparsed(calls@, i as int) == i);
                        assert(unparsed_text(calls@[i as int]) == "Failed to parse tool arguments for '"@ + c.name@ + "': "@ + e@);
                        let m = concat2("Failed to parse tool arguments for '", c.name.as_str());
                        let m = concat2(m.as_str(), "': ");
                        let m = concat2(m.as_str(), e.as_str());
                        return Err(AppError::LlmError(m));
                    },
                    Ok(v) => {
                        let call = ToolCall {
                            id: Some(c.id.clone()),
                            function: FunctionCall { name: c.name.clone(), arguments: v.duplicate() },
                        };
                        assert(call@ == parsed_call(calls@[i as int]));
                        let ghost prev = out@;
                        out.push(call);
                        assert(calls_view(out@) =~= calls_view(prev).push(call@));
                        assert(all.take(i + 1) =~= all.take(i as int).push(all[i as int]));
                    },
                }
                i += 1;
            }
            assert(all.take(calls.len() as int) =~= all);
            Some(out)
        },
        None => None,
    };
    let content = match reply.content {
        Some(t) => t,
        None => String::new(),
    };
    Ok(Message { role: reply.role, content, tool_calls, name: None, tool_call_id: None })
}

/// Whether a model declares tool use, from what Ollama's `/api/show` answered: it does
/// when `tools` is among its `capabilities`, and is taken to when the answer has no
/// capabilities list (older versions do not send one).
pub open spec fn declares_tools(show: Json) -> bool {
    match array_member(show, "capabilities"@) {
        Some(caps) => caps.contains(Json::Str("tools"@)),
        None => true,
    }
}

pub fn model_supports_tools(show: &JsonValue) -> (r: bool)
    ensures
        r == declares_tools(show@),
{
    let caps = match show.get("capabilities") {
        Some(v) => v,
        None => return true,
    };
    let items = match caps.as_array() {
        Some(items) => items,
        None => return true,
    };
    proof {
        crate::json::lemma_items_view(items@);
    }
    assert(array_member(show@, "capabilities"@) == Some(crate::json::items_view(items@)));
    let mut i: usize = 0;
    while i < items.len()
        invariant
            0 <= i <= items.len(),
            array_member(show@, "capabilities"@) == Some(crate::json::items_view(items@)),
            caps@ == Json::Array(crate::json::items_view(items@)),
            crate::json::items_view(items@).len() == items.len(),
            forall|k: int| 0 <= k < items.len() ==> #[trigger] crate::json::items_view(items@)[k] == items@[k]@,
            forall|k: int| 0 <= k < i ==> crate::json::items_view(items@)[k] != Json::Str("tools"@),
        decreases items.len() - i,
    {
        match items[i].as_str() {
            Some(t) => {
                if crate::text::str_eq(t, "tools") {
                    assert(crate::json::items_view(items@)[i as int] == Json::Str("tools"@));
                    assert(crate::json::items_view(items@).contains(Json::Str("tools"@)));
                    return true;
                }
            },
            None => {},
        }
        i += 1;
    }
    false
}


// ── Offline model output ──────────────────────────────────────────────────────

pub open spec fn empty_output_text() -> Seq<char> {
    "Model returned an empty response. Try a larger model or rephrase your request."@
}

pub open spec fn local_call_id() -> Seq<char> {
    "local_call_0"@
}

/// The tool an offline model's output calls: the output (trimmed) is a JSON object with
/// a string `name` naming one of `tools`, and `arguments`.
pub open spec fn called_tool(trimmed: Seq<char>, parsed: Option<Json>, tools: Seq<Seq<char>>) -> Option<
    (Seq<char>, Json),
> {
    if trimmed.len() > 0 && trimmed[0] == '{' {
        match parsed {
            Some(v) => match (crate::json::str_member(v, "name"@), crate::json::json_get(v, "arguments"@)) {
                (Some(n), Some(a)) => if tools.contains(n) {
                    Some((n, a))
                } else {
                    None
                },
                _ => None,
            },
            None => None,
        }
    } else {
        None
    }
}

pub open spec fn tool_names(tools: Seq<crate::types::Tool>) -> Seq<Seq<char>> {
    tools.map_values(|t: crate::types::Tool| t@.name)
}

/// The message in what an offline model generated: a call of one of `tools` when the
/// output is such a call (`parsed` is the output, trimmed, as it decoded as JSON, when
/// it did); else its words; refused when it is blank.
pub fn local_message(text: &str, parsed: Option<JsonValue>, tools: &Vec<crate::types::Tool>) -> (r: Result<
    Message,
    AppError,
>)
    ensures
        ({
            let t = crate::text::trim(text@);
            let pv = match parsed {
                Some(v) => Some(v@),
                None => None,
            };
            match called_tool(t, pv, tool_names(tools@)) {
                Some((n, a)) => ok_message(
                    r,
                    MessageView {
                        role: "assistant"@,
                        content: Seq::empty(),
                        tool_calls: Some(
                            seq![
                                ToolCallView {
                                    id: Some(local_call_id()),
                                    function: FunctionCallView { name: n, arguments: a },
                                },
                            ],
                        ),
                        name: None,
                        tool_call_id: None,
                    },
                ),
                None => if t.len() == 0 {
                    llm_error(r, empty_output_text())
                } else {
                    ok_message(
                        r,
                        MessageView {
                            role: "assistant"@,
                            content: t,
                            tool_calls: None,
                            name: None,
                            tool_call_id: None,
                        },
                    )
                },
            }
        }),
{
    let trimmed = crate::text::trim_str(text);
    let v = chars_of_str(trimmed.as_str());
    if v.len() > 0 && v[0] == '{' {
        if let Some(value) = &parsed {
            let name = match value.get("name") {
                Some(n) => n.as_str(),
                None => None,
            };
            let arguments = value.get("arguments");
            if let (Some(n), Some(a)) = (name, arguments) {
                let mut known = false;
                let mut i: usize = 0;
                while i < tools.len()
                    invariant
                        0 <= i <= tools.len(),
                        known == exists|k: int| 0 <= k < i && tool_names(tools@)[k] == n@,
                    decreases tools.len() - i,
                {
                    assert(tool_names(tools@)[i as int] == tools@[i as int].function.name@);
                    let ghost was = known;
                    if crate::text::str_eq(tools[i].function.name.as_str(), n) {
                        known = true;
                    }
                    proof {
                        if known && !was {
                            assert(0 <= i < i + 1 && tool_names(tools@)[i as int] == n@);
                        }
                        if !known {
                            assert forall|k: int| 0 <= k < i + 1 implies tool_names(tools@)[k] != n@ by {
                                if k < i {
                                    assert(!(0 <= k < i && tool_names(tools@)[k] == n@));
                                }
                            }
                        }
                    }
                    i += 1;
                }
                proof {
                    assert(crate::json::str_member(value@, "name"@) == Some(n@));
                    if known {
                        let k = choose|k: int| 0 <= k < tools.len() && tool_names(tools@)[k] == n@;
                        assert(tool_names(tools@).contains(n@));
                    } else {
                        assert(!tool_names(tools@).contains(n@));
                    }
                }
                if known {
                    let call = ToolCall {
                        id: Some(owned("local_call_0")),
                        function: FunctionCall { name: owned(n), arguments: a.duplicate() },
                    };
                    let mut calls: Vec<ToolCall> = Vec::new();
                    calls.push(call);
                    assert(calls_view(calls@) =~= seq![call@]);
                    return Ok(
                        Message {
                            role: owned("assistant"),
                            content: String::new(),
                            tool_calls: Some(calls),
                            name: None,
                            tool_call_id: None,
                        },
                    );
                }
            } else {
                proof {
                    if crate::json::str_member(value@, "name"@) is Some {
                        assert(crate::json::json_get(value@, "name"@) is Some);
                    }
                }
            }
        }
    }
    if trimmed.as_str().is_empty() {
        return Err(
            AppError::LlmError(
                owned("Model returned an empty response. Try a larger model or rephrase your request."),
            ),
        );
    }
    Ok(Message { role: owned("assistant"), content: trimmed, tool_calls: None, name: None, tool_call_id: None })
}

fn chars_of_str(s: &str) -> (v: Vec<char>)
    ensures
        v@ == s@,
{
    crate::text::chars_of(s)
}

/// The stream chunks that hand over a whole message: each tool call under its position,
/// or else its words unless empty; then `Done`.
pub open spec fn message_chunks_spec(m: MessageView) -> Seq<ChunkView> {
    (match m.tool_calls {
        Some(calls) => Seq::new(
            calls.len(),
            |i: int|
                ChunkView::ToolCallDelta {
                    index: i as usize,
                    id: calls[i].id,
                    name: Some(calls[i].function.name),
                    arguments_fragment: serde_json_text(calls[i].function.arguments),
                },
        ),
        None => if m.content.len() > 0 {
            seq![ChunkView::ContentDelta(m.content)]
        } else {
            Seq::empty()
        },
    }) + seq![ChunkView::Done]
}

pub fn message_chunks(m: &Message) -> (r: Vec<StreamChunk>)
    ensures
        chunks_view(r@) == message_chunks_spec(m@),
{
    let mut out: Vec<StreamChunk> = Vec::new();
    match &m.tool_calls {
        Some(calls) => {
            let ghost cv = calls_view(calls@);
            let mut i: usize = 0;
            while i < calls.len()
                invariant
                    0 <= i <= calls.len(),
                    cv == calls_view(calls@),
                    chunks_view(out@) == Seq::new(
                        i as nat,
                        |k: int|
                            ChunkView::ToolCallDelta {
                                index: k as usize,
                                id: cv[k].id,
                                name: Some(cv[k].function.name),
                                arguments_fragment: serde_json_text(cv[k].function.arguments),
                            },
                    ),
                decreases calls.len() - i,
            {
                let c = &calls[i];
                let chunk = StreamChunk::ToolCallDelta {
                    index: i,
                    id: copy_opt_str(&c.id),
                    name: Some(c.function.name.clone()),
                    arguments_fragment: to_json_string(&c.function.arguments),
                };
                let ghost before = out@;
                let ghost cw = chunk@;
                out.push(chunk);
                assert(cv[i as int] == calls@[i as int]@);
                assert(chunks_view(out@) =~= chunks_view(before).push(cw));
                assert(chunks_view(out@) =~= Seq::new(
                    (i + 1) as nat,
                    |k: int|
                        ChunkView::ToolCallDelta {
                            index: k as usize,
                            id: cv[k].id,
                            name: Some(cv[k].function.name),
                            arguments_fragment: serde_json_text(cv[k].function.arguments),
                        },
                ));
                i += 1;
            }
        },
        None => {
            if !m.content.as_str().is_empty() {
                out.push(StreamChunk::ContentDelta(m.content.clone()));
            }
        },
    }
    let ghost before = chunks_view(out@);
    out.push(StreamChunk::Done);
    assert(chunks_view(out@) =~= before + seq![ChunkView::Done]);
    assert(chunks_view(out@) =~= message_chunks_spec(m@));
    out
}

} // verus!
