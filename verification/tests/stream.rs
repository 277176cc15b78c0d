use codex_api::protocol::ContentItem;
use codex_api::protocol::ResponseEvent;
use codex_api::protocol::ResponseItem;
use codex_api::protocol::TokenUsage;
use codex_api::sse::ChatCompletionsChunk;
use codex_api::sse::ChatCompletionsStreamState;
use codex_api::sse::ChunkChoice;
use codex_api::sse::ChunkDelta;
use codex_api::sse::ChunkUsage;
use codex_api::sse::FunctionDelta;
use codex_api::sse::StreamInput;
use codex_api::sse::StreamStep;
use codex_api::sse::ToolCallDelta;
use codex_api::sse::upstream_error_message;

fn choice(content: Option<&str>, reasoning: Option<&str>, finish: Option<&str>) -> ChunkChoice {
    ChunkChoice {
        delta: ChunkDelta {
            content: content.map(str::to_string),
            reasoning_content: reasoning.map(str::to_string),
            tool_calls: None,
        },
        finish_reason: finish.map(str::to_string),
    }
}

fn tool_choice(deltas: Vec<ToolCallDelta>) -> ChunkChoice {
    ChunkChoice {
        delta: ChunkDelta {
            content: None,
            reasoning_content: None,
            tool_calls: Some(deltas),
        },
        finish_reason: None,
    }
}

fn delta(index: usize, id: Option<&str>, name: Option<&str>, args: Option<&str>) -> ToolCallDelta {
    ToolCallDelta {
        index,
        id: id.map(str::to_string),
        function: Some(FunctionDelta {
            name: name.map(str::to_string),
            arguments: args.map(str::to_string),
        }),
    }
}

fn data(chunk: ChatCompletionsChunk) -> StreamInput {
    StreamInput::Data {
        data: "{}".to_string(),
        chunk: Some(chunk),
    }
}

fn emitted(step: StreamStep) -> Vec<ResponseEvent> {
    match step {
        StreamStep::Emit(events) => events,
        _ => panic!("expected events"),
    }
}

#[test]
fn text_deltas_announce_the_message_once() {
    let mut state = ChatCompletionsStreamState::new();
    let events = emitted(state.step(&data(ChatCompletionsChunk {
        id: Some("resp1".to_string()),
        choices: vec![choice(Some("Hel"), None, None)],
        usage: None,
    })));
    assert_eq!(events.len(), 2);
    match &events[0] {
        ResponseEvent::OutputItemAdded(ResponseItem::Message { id, role, content, .. }) => {
            assert_eq!(id.as_deref(), Some("resp1_msg_0"));
            assert_eq!(role, "assistant");
            assert!(content.is_empty());
        }
        _ => panic!("expected the placeholder item"),
    }
    assert!(matches!(&events[1], ResponseEvent::OutputTextDelta(t) if t == "Hel"));

    let events = emitted(state.step(&data(ChatCompletionsChunk {
        id: Some("other".to_string()),
        choices: vec![choice(Some("lo"), Some("think"), Some("stop"))],
        usage: Some(ChunkUsage {
            prompt_tokens: 3,
            completion_tokens: 4,
        }),
    })));
    assert_eq!(events.len(), 2);
    assert!(matches!(&events[0], ResponseEvent::OutputTextDelta(t) if t == "lo"));
    assert!(matches!(
        &events[1],
        ResponseEvent::ReasoningContentDelta { delta, content_index: 0 } if delta == "think"
    ));

    assert!(matches!(state.step(&StreamInput::Data { data: "[DONE]".to_string(), chunk: None }), StreamStep::Finish));
    assert!(state.usage_total_fits());
    let events = state.finish();
    assert_eq!(events.len(), 2);
    match &events[0] {
        ResponseEvent::OutputItemDone(ResponseItem::Message { id, content, .. }) => {
            assert_eq!(id.as_deref(), Some("resp1_msg_0"));
            assert!(matches!(&content[0], ContentItem::OutputText { text } if text == "Hello"));
        }
        _ => panic!("expected the assembled message"),
    }
    match &events[1] {
        ResponseEvent::Completed { response_id, token_usage, end_turn } => {
            assert_eq!(response_id, "resp1");
            assert_eq!(
                *token_usage,
                Some(TokenUsage {
                    input_tokens: 3,
                    cached_input_tokens: 0,
                    output_tokens: 4,
                    reasoning_output_tokens: 0,
                    total_tokens: 7,
                })
            );
            assert_eq!(*end_turn, Some(true));
        }
        _ => panic!("expected completion"),
    }
}

#[test]
fn reasoning_first_uses_default_item_id() {
    let mut state = ChatCompletionsStreamState::new();
    let events = emitted(state.step(&data(ChatCompletionsChunk {
        id: None,
        choices: vec![choice(None, Some("a"), None), choice(Some(""), Some("b"), None)],
        usage: None,
    })));
    assert_eq!(events.len(), 3);
    assert!(matches!(
        &events[0],
        ResponseEvent::OutputItemAdded(ResponseItem::Message { id: Some(id), .. }) if id == "chat_completions_msg_0"
    ));
    assert!(matches!(&events[1], ResponseEvent::ReasoningContentDelta { content_index: 0, .. }));
    assert!(matches!(&events[2], ResponseEvent::ReasoningContentDelta { content_index: 1, .. }));
    assert!(matches!(state.step(&StreamInput::Closed), StreamStep::Finish));
    let events = state.finish();
    // Only reasoning arrived: the announced message is still closed, with
    // empty text, before the completion.
    assert_eq!(events.len(), 2);
    assert!(matches!(
        &events[0],
        ResponseEvent::OutputItemDone(ResponseItem::Message { id: Some(id), role, content, .. })
            if id == "chat_completions_msg_0"
                && role == "assistant"
                && matches!(content.as_slice(), [ContentItem::OutputText { text }] if text.is_empty())
    ));
    assert!(matches!(
        &events[1],
        ResponseEvent::Completed { token_usage: None, end_turn: None, .. }
    ));
}

#[test]
fn tool_calls_are_assembled_and_rewritten_in_index_order() {
    let mut state = ChatCompletionsStreamState::new();
    let events = emitted(state.step(&data(ChatCompletionsChunk {
        id: None,
        choices: vec![tool_choice(vec![
            delta(2, Some("call_b"), Some("read_"), Some("{\"file_path\":")),
            delta(0, None, Some("edit_file"), Some("{\"file_path\":\"a\",")),
        ])],
        usage: None,
    })));
    assert_eq!(events.len(), 2);
    assert!(matches!(
        &events[0],
        ResponseEvent::ToolCallInputDelta { item_id, call_id: None, .. } if item_id == "call_b"
    ));
    assert!(matches!(
        &events[1],
        ResponseEvent::ToolCallInputDelta { item_id, .. } if item_id == "tool_call_0"
    ));
    let events = emitted(state.step(&data(ChatCompletionsChunk {
        id: None,
        choices: vec![ChunkChoice {
            delta: ChunkDelta {
                content: None,
                reasoning_content: None,
                tool_calls: Some(vec![
                    delta(2, Some(""), Some("file"), Some("\"x.rs\"}")),
                    delta(0, Some("call_a"), None, Some("\"old_string\":\"o\",\"new_string\":\"n\"}")),
                    delta(1, Some("call_c"), Some("lookup"), None),
                ]),
            },
            finish_reason: Some("tool_calls".to_string()),
        }],
        usage: None,
    })));
    assert_eq!(events.len(), 2);
    assert!(matches!(state.step(&StreamInput::Closed), StreamStep::Finish));
    let events = state.finish();
    assert_eq!(events.len(), 7);
    match &events[1] {
        ResponseEvent::OutputItemDone(ResponseItem::CustomToolCall { call_id, name, input, id, .. }) => {
            assert_eq!(call_id, "call_a");
            assert_eq!(id.as_deref(), Some("call_a"));
            assert_eq!(name, "apply_patch");
            assert_eq!(input, "*** Begin Patch\n*** Update File: a\n@@\n-o\n+n\n*** End Patch\n");
        }
        _ => panic!("expected the edit as apply_patch"),
    }
    match &events[3] {
        ResponseEvent::OutputItemDone(ResponseItem::FunctionCall { name, arguments, call_id, .. }) => {
            assert_eq!(name, "lookup");
            assert_eq!(arguments, "");
            assert_eq!(call_id, "call_c");
        }
        _ => panic!("expected the plain function call"),
    }
    match &events[5] {
        ResponseEvent::OutputItemDone(ResponseItem::FunctionCall { name, arguments, call_id, .. }) => {
            assert_eq!(name, "shell_command");
            assert_eq!(arguments, "{\"command\":\"cat -- 'x.rs'\"}");
            assert_eq!(call_id, "call_b");
        }
        _ => panic!("expected the read as shell_command"),
    }
    assert!(matches!(&events[6], ResponseEvent::Completed { end_turn: Some(false), .. }));
}

#[test]
fn rejected_and_legacy_tool_calls() {
    let mut state = ChatCompletionsStreamState::new();
    emitted(state.step(&data(ChatCompletionsChunk {
        id: None,
        choices: vec![tool_choice(vec![
            delta(0, Some("c0"), Some("write_file"), Some("{\"file_path\":\"a\"}")),
            delta(1, Some("c1"), Some("apply_patch"), Some("{\"patch\":\"P\"}")),
            delta(3, Some("c3"), Some("apply_patch"), Some("raw patch")),
        ])],
        usage: None,
    })));
    let events = state.finish();
    assert_eq!(events.len(), 7);
    assert!(matches!(
        &events[0],
        ResponseEvent::OutputItemAdded(ResponseItem::FunctionCall { name, .. }) if name == "write_file"
    ));
    assert!(matches!(
        &events[2],
        ResponseEvent::OutputItemAdded(ResponseItem::CustomToolCall { input, .. }) if input == "P"
    ));
    assert!(matches!(
        &events[4],
        ResponseEvent::OutputItemAdded(ResponseItem::CustomToolCall { input, .. }) if input == "raw patch"
    ));
}

#[test]
fn stream_errors_abort() {
    let mut state = ChatCompletionsStreamState::new();
    let step = state.step(&StreamInput::Data {
        data: "{\"error\":{\"message\":\"rate limited\"}}".to_string(),
        chunk: None,
    });
    assert!(matches!(step, StreamStep::Abort(m) if m == "rate limited"));
    let step = state.step(&StreamInput::Data {
        data: "garbage".to_string(),
        chunk: None,
    });
    assert!(matches!(step, StreamStep::Emit(ref e) if e.is_empty()));
    let step = state.step(&StreamInput::IdleTimeout);
    assert!(matches!(step, StreamStep::Abort(m) if m == "idle timeout waiting for SSE"));
    let step = state.step(&StreamInput::Failed("boom".to_string()));
    assert!(matches!(step, StreamStep::Abort(m) if m == "boom"));
}

#[test]
fn usage_overflow_is_detected() {
    let mut state = ChatCompletionsStreamState::new();
    emitted(state.step(&data(ChatCompletionsChunk {
        id: None,
        choices: vec![],
        usage: Some(ChunkUsage {
            prompt_tokens: i64::MAX,
            completion_tokens: 1,
        }),
    })));
    assert!(!state.usage_total_fits());
}

#[test]
fn upstream_error_message_reads_nested_message() {
    assert_eq!(upstream_error_message("{\"error\":{\"message\":\"x\"}}").as_deref(), Some("x"));
    assert_eq!(upstream_error_message("{\"error\":\"x\"}"), None);
    assert_eq!(upstream_error_message("[1]"), None);
}

#[test]
fn whole_stream_announces_then_closes_the_message() {
    let mut state = ChatCompletionsStreamState::new();
    let mut sent: Vec<ResponseEvent> = Vec::new();
    // A chunk without content or id, then one whose id names the message.
    sent.extend(emitted(state.step(&data(ChatCompletionsChunk {
        id: Some(String::new()),
        choices: vec![choice(None, None, None)],
        usage: None,
    }))));
    sent.extend(emitted(state.step(&data(ChatCompletionsChunk {
        id: Some("r7".to_string()),
        choices: vec![choice(None, Some("think"), None), choice(Some("Hi"), None, Some("stop"))],
        usage: None,
    }))));
    sent.extend(emitted(state.step(&StreamInput::Data {
        data: "not json".to_string(),
        chunk: None,
    })));
    assert!(matches!(
        state.step(&StreamInput::Data { data: "[DONE]".to_string(), chunk: None }),
        StreamStep::Finish
    ));
    sent.extend(state.finish());
    assert_eq!(sent.len(), 5);
    assert!(matches!(
        &sent[0],
        ResponseEvent::OutputItemAdded(ResponseItem::Message { id: Some(id), content, .. })
            if id == "r7_msg_0" && content.is_empty()
    ));
    assert!(matches!(&sent[1], ResponseEvent::ReasoningContentDelta { delta, content_index: 0 } if delta == "think"));
    assert!(matches!(&sent[2], ResponseEvent::OutputTextDelta(t) if t == "Hi"));
    assert!(matches!(
        &sent[3],
        ResponseEvent::OutputItemDone(ResponseItem::Message { id: Some(id), content, .. })
            if id == "r7_msg_0"
                && matches!(content.as_slice(), [ContentItem::OutputText { text }] if text == "Hi")
    ));
    assert!(matches!(
        &sent[4],
        ResponseEvent::Completed { response_id, end_turn: Some(true), .. } if response_id == "r7"
    ));
}
