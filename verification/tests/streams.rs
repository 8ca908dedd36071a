use foxmayn_cowork::error::AppError;
use foxmayn_cowork::json::JsonValue;
use foxmayn_cowork::replies::{
    flush_calls, local_message, message_chunks, model_supports_tools, ollama_message,
    openrouter_message, sse_chunks, NdjsonLine, NdjsonMessage, OllamaReply, OllamaToolCall,
    OpenRouterReply, OpenRouterToolCall, SseDelta, SseToolCallDelta,
};
use foxmayn_cowork::stream::{Framer, NdjsonDecoder, SseDecoder, SseEvent};
use foxmayn_cowork::tools::schema::tool_definitions;
use foxmayn_cowork::types::{FunctionCall, Message, StreamChunk, ToolCall};

fn obj(entries: Vec<(&str, JsonValue)>) -> JsonValue {
    JsonValue::Object(entries.into_iter().map(|(k, v)| (k.to_string(), v)).collect())
}

fn s(t: &str) -> JsonValue {
    JsonValue::Str(t.to_string())
}

fn events_text(events: &[SseEvent]) -> Vec<String> {
    events
        .iter()
        .map(|e| match e {
            SseEvent::Data(d) => d.clone(),
            SseEvent::Done => "<done>".to_string(),
        })
        .collect()
}

fn chunk_text(c: &StreamChunk) -> String {
    match c {
        StreamChunk::ContentDelta(t) => format!("content:{t}"),
        StreamChunk::ThinkingDelta(t) => format!("thinking:{t}"),
        StreamChunk::ToolCallDelta { index, id, name, arguments_fragment } => format!(
            "call:{index}:{}:{}:{arguments_fragment}",
            id.clone().unwrap_or_default(),
            name.clone().unwrap_or_default()
        ),
        StreamChunk::Done => "done".to_string(),
        StreamChunk::Error(e) => format!("error:{e}"),
    }
}

#[test]
fn framer_hands_out_complete_lines_only() {
    let mut f = Framer::new("\n");
    assert_eq!(f.push("ab"), Vec::<String>::new());
    assert_eq!(f.push("c\nde"), vec!["abc".to_string()]);
    assert_eq!(f.push("\n\nf"), vec!["de".to_string(), String::new()]);
}

#[test]
fn framer_output_does_not_depend_on_the_cut() {
    let text = "one\n\ntwo\n\n\nthree\n\nrest";
    let mut whole = Framer::new("\n\n");
    let all = whole.push(text);
    for cut in 0..text.len() {
        let mut f = Framer::new("\n\n");
        let mut got = f.push(&text[..cut]);
        got.extend(f.push(&text[cut..]));
        assert_eq!(got, all, "cut at {cut}");
    }
    assert_eq!(all, vec!["one".to_string(), "two".to_string(), "\nthree".to_string()]);
}

#[test]
fn sse_decoder_reads_data_lines_until_done() {
    let mut d = SseDecoder::new();
    let first = d.push("data: {\"a\":1}\n\nevent: x\ndata:  spaced  \n");
    assert_eq!(events_text(&first), vec!["{\"a\":1}".to_string()]);
    let second = d.push("\ndata: [DONE]\n\ndata: late\n\n");
    assert_eq!(events_text(&second), vec!["spaced".to_string(), "<done>".to_string()]);
    assert!(d.finished());
    assert!(d.push("data: more\n\n").is_empty());
}

#[test]
fn sse_chunks_come_from_the_first_choice() {
    let delta = SseDelta {
        reasoning: None,
        content: Some("Hi".to_string()),
        tool_calls: Some(vec![SseToolCallDelta {
            index: 0,
            id: Some("call_1".to_string()),
            name: Some("read_file".to_string()),
            arguments: None,
        }]),
    };
    let other = SseDelta { reasoning: None, content: Some("ignored".to_string()), tool_calls: None };
    let chunks = sse_chunks(&vec![delta, other]);
    let texts: Vec<String> = chunks.iter().map(chunk_text).collect();
    assert_eq!(texts, vec!["content:Hi".to_string(), "call:0:call_1:read_file:".to_string()]);
    assert!(sse_chunks(&Vec::new()).is_empty());
    let empty = SseDelta { reasoning: Some(String::new()), content: Some(String::new()), tool_calls: None };
    assert!(sse_chunks(&vec![empty]).is_empty());
}

#[test]
fn sse_reasoning_shows_as_thinking() {
    let only = SseDelta { reasoning: Some("r".to_string()), content: None, tool_calls: None };
    let texts: Vec<String> = sse_chunks(&vec![only]).iter().map(chunk_text).collect();
    assert_eq!(texts, vec!["thinking:r".to_string()]);
    let both = SseDelta { reasoning: Some("why".to_string()), content: Some("so".to_string()), tool_calls: None };
    let texts: Vec<String> = sse_chunks(&vec![both]).iter().map(chunk_text).collect();
    assert_eq!(texts, vec!["thinking:why".to_string(), "content:so".to_string()]);
}

#[test]
fn ndjson_decoder_keeps_the_last_tool_calls_for_the_end() {
    let mut d = NdjsonDecoder::new();
    let lines = d.push("  {\"x\":1}  \n\n{\"y\"");
    assert_eq!(lines, vec!["{\"x\":1}".to_string()]);
    let mut counter: u64 = 7;
    let call = |name: &str, id: Option<&str>| OllamaToolCall {
        id: id.map(|i| i.to_string()),
        name: name.to_string(),
        arguments: obj(vec![("path", s("a.md"))]),
    };
    let out = d.on_line(
        NdjsonLine {
            message: Some(NdjsonMessage {
                content: Some("Hello".to_string()),
                thinking: Some("hmm".to_string()),
                tool_calls: Some(vec![call("read_file", None)]),
            }),
            done: false,
        },
        &mut counter,
    );
    let texts: Vec<String> = out.iter().map(chunk_text).collect();
    assert_eq!(texts, vec!["thinking:hmm".to_string(), "content:Hello".to_string()]);
    let out = d.on_line(
        NdjsonLine {
            message: Some(NdjsonMessage {
                content: None,
                thinking: None,
                tool_calls: Some(vec![call("list_files", Some("call_x")), call("read_file", None)]),
            }),
            done: true,
        },
        &mut counter,
    );
    let texts: Vec<String> = out.iter().map(chunk_text).collect();
    assert_eq!(
        texts,
        vec![
            "call:0:call_x:list_files:{\"path\":\"a.md\"}".to_string(),
            "call:1:ollama_call_00000007:read_file:{\"path\":\"a.md\"}".to_string(),
            "done".to_string(),
        ]
    );
    assert_eq!(counter, 8);
    assert!(d.finished());
    assert!(d.finish(&mut counter).is_empty());
}

#[test]
fn ndjson_stream_end_without_done_still_finishes() {
    let mut d = NdjsonDecoder::new();
    let mut counter: u64 = 0;
    let out = d.finish(&mut counter);
    let texts: Vec<String> = out.iter().map(chunk_text).collect();
    assert_eq!(texts, vec!["done".to_string()]);
}

#[test]
fn flush_calls_draws_ids_only_for_calls_without_one() {
    let calls = vec![
        OllamaToolCall { id: None, name: "a".to_string(), arguments: JsonValue::Null },
        OllamaToolCall { id: Some("k".to_string()), name: "b".to_string(), arguments: JsonValue::Bool(true) },
        OllamaToolCall { id: None, name: "c".to_string(), arguments: obj(vec![]) },
    ];
    let mut counter: u64 = u64::MAX;
    let out = flush_calls(&calls, &mut counter);
    let texts: Vec<String> = out.iter().map(chunk_text).collect();
    assert_eq!(
        texts,
        vec![
            "call:0:ollama_call_ffffffffffffffff:a:null".to_string(),
            "call:1:k:b:true".to_string(),
            "call:2:ollama_call_00000000:c:{}".to_string(),
        ]
    );
    assert_eq!(counter, 1);
}

#[test]
fn ollama_replies_number_every_call() {
    let reply = OllamaReply {
        role: "assistant".to_string(),
        content: "ok".to_string(),
        tool_calls: Some(vec![OllamaToolCall {
            id: Some("ignored".to_string()),
            name: "list_files".to_string(),
            arguments: obj(vec![("path", s("."))]),
        }]),
    };
    let mut counter: u64 = 26;
    let m = ollama_message(reply, &mut counter);
    assert_eq!(m.role, "assistant");
    assert_eq!(m.content, "ok");
    let calls = m.tool_calls.unwrap();
    assert_eq!(calls.len(), 1);
    assert_eq!(calls[0].id.as_deref(), Some("ollama_call_0000001a"));
    assert_eq!(calls[0].function.name, "list_files");
    assert_eq!(counter, 27);
}

#[test]
fn openrouter_replies_need_a_choice_and_decoded_arguments() {
    match openrouter_message(None) {
        Err(AppError::LlmError(m)) => assert_eq!(m, "OpenRouter returned empty choices"),
        _ => panic!("expected a refusal"),
    }
    let bad = OpenRouterReply {
        role: "assistant".to_string(),
        content: None,
        tool_calls: Some(vec![
            OpenRouterToolCall { id: "1".to_string(), name: "a".to_string(), arguments: Ok(JsonValue::Null) },
            OpenRouterToolCall {
                id: "2".to_string(),
                name: "read_file".to_string(),
                arguments: Err("EOF while parsing".to_string()),
            },
        ]),
    };
    match openrouter_message(Some(bad)) {
        Err(AppError::LlmError(m)) => {
            assert_eq!(m, "Failed to parse tool arguments for 'read_file': EOF while parsing")
        }
        _ => panic!("expected a refusal"),
    }
    let good = OpenRouterReply { role: "assistant".to_string(), content: None, tool_calls: None };
    let m = openrouter_message(Some(good)).unwrap();
    assert_eq!(m.content, "");
    assert!(m.tool_calls.is_none());
}

#[test]
fn tool_support_is_read_from_capabilities() {
    let with = obj(vec![("capabilities", JsonValue::Array(vec![s("completion"), s("tools")]))]);
    let without = obj(vec![("capabilities", JsonValue::Array(vec![s("completion")]))]);
    let older = obj(vec![("model_info", JsonValue::Null)]);
    assert!(model_supports_tools(&with));
    assert!(!model_supports_tools(&without));
    assert!(model_supports_tools(&older));
}

#[test]
fn offline_output_is_a_call_or_words() {
    let tools = tool_definitions();
    let text = " {\"name\": \"list_files\", \"arguments\": {\"path\": \".\"}} ";
    let parsed = obj(vec![("name", s("list_files")), ("arguments", obj(vec![("path", s("."))]))]);
    let m = local_message(text, Some(parsed), &tools).unwrap();
    let calls = m.tool_calls.unwrap();
    assert_eq!(calls[0].id.as_deref(), Some("local_call_0"));
    assert_eq!(calls[0].function.name, "list_files");
    let unknown = obj(vec![("name", s("format_disk")), ("arguments", obj(vec![]))]);
    let m = local_message("{\"name\":\"format_disk\"}", Some(unknown), &tools).unwrap();
    assert_eq!(m.content, "{\"name\":\"format_disk\"}");
    let m = local_message("  Hello there \n", None, &tools).unwrap();
    assert_eq!(m.content, "Hello there");
    match local_message("   ", None, &tools) {
        Err(AppError::LlmError(e)) => assert_eq!(
            e,
            "Model returned an empty response. Try a larger model or rephrase your request."
        ),
        _ => panic!("expected a refusal"),
    }
}

#[test]
fn whole_messages_stream_as_calls_or_words() {
    let tools = tool_definitions();
    let parsed = obj(vec![("name", s("read_file")), ("arguments", obj(vec![("path", s("a"))]))]);
    let m = local_message("{}", Some(parsed), &tools).unwrap();
    let texts: Vec<String> = message_chunks(&m).iter().map(chunk_text).collect();
    assert_eq!(
        texts,
        vec!["call:0:local_call_0:read_file:{\"path\":\"a\"}".to_string(), "done".to_string()]
    );
    let words = local_message("hi", None, &tools).unwrap();
    let texts: Vec<String> = message_chunks(&words).iter().map(chunk_text).collect();
    assert_eq!(texts, vec!["content:hi".to_string(), "done".to_string()]);
}

#[test]
fn tool_arguments_are_sent_as_compact_json() {
    let args = JsonValue::Object(vec![
        ("a".to_string(), JsonValue::Number("1".to_string())),
        ("b".to_string(), JsonValue::Array(vec![JsonValue::Null, JsonValue::Bool(false)])),
        ("c".to_string(), JsonValue::Str("q\"\n\u{1}".to_string())),
    ]);
    let m = Message {
        role: "assistant".to_string(),
        content: String::new(),
        tool_calls: Some(vec![ToolCall {
            id: Some("k".to_string()),
            function: FunctionCall { name: "read_file".to_string(), arguments: args },
        }]),
        name: None,
        tool_call_id: None,
    };
    let texts: Vec<String> = message_chunks(&m).iter().map(chunk_text).collect();
    let mut expected = serde_json::Map::new();
    expected.insert("a".to_string(), serde_json::Value::from(1));
    expected.insert(
        "b".to_string(),
        serde_json::Value::Array(vec![serde_json::Value::Null, serde_json::Value::Bool(false)]),
    );
    expected.insert("c".to_string(), serde_json::Value::String("q\"\n\u{1}".to_string()));
    let text = serde_json::Value::Object(expected).to_string();
    assert_eq!(text, "{\"a\":1,\"b\":[null,false],\"c\":\"q\\\"\\n\\u0001\"}");
    assert!(texts.contains(&format!("call:0:k:read_file:{text}")));
}
