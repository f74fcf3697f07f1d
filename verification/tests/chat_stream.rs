use growcli_chat::chat_stream::ChatCompletionChoice;
use growcli_chat::chat_stream::ChatCompletionChunk;
use growcli_chat::chat_stream::ChatCompletionDelta;
use growcli_chat::chat_stream::ChatCompletionFunctionDelta;
use growcli_chat::chat_stream::ChatCompletionToolCallDelta;
use growcli_chat::chat_stream::ChatCompletionUsage;
use growcli_chat::chat_stream::ChatCompletionsState;
use growcli_chat::json::JsonValue;
use growcli_chat::model::ResponseEvent;
use growcli_chat::model::ResponseItem;
use growcli_chat::model::TokenUsage;

#[test]
fn accumulates_text_and_tool_calls() {
    let mut state = ChatCompletionsState::new();

    let text_events = state.apply_chunk(ChatCompletionChunk {
        id: Some("chatcmpl-1".to_string()),
        choices: vec![ChatCompletionChoice {
            index: Some(0),
            delta: ChatCompletionDelta {
                content: Some(JsonValue::String("hello".to_string())),
                tool_calls: None,
            },
            finish_reason: None,
        }],
        usage: None,
    });
    let tool_events = state.apply_chunk(ChatCompletionChunk {
        id: Some("chatcmpl-1".to_string()),
        choices: vec![ChatCompletionChoice {
            index: Some(0),
            delta: ChatCompletionDelta {
                content: None,
                tool_calls: Some(vec![ChatCompletionToolCallDelta {
                    index: Some(0),
                    id: Some("call_1".to_string()),
                    function: Some(ChatCompletionFunctionDelta {
                        name: Some("shell".to_string()),
                        arguments: Some("{\"cmd\":".to_string()),
                    }),
                }]),
            },
            finish_reason: None,
        }],
        usage: None,
    });
    let _ = state.apply_chunk(ChatCompletionChunk {
        id: Some("chatcmpl-1".to_string()),
        choices: vec![ChatCompletionChoice {
            index: Some(0),
            delta: ChatCompletionDelta {
                content: None,
                tool_calls: Some(vec![ChatCompletionToolCallDelta {
                    index: Some(0),
                    id: None,
                    function: Some(ChatCompletionFunctionDelta {
                        name: None,
                        arguments: Some("\"ls\"}".to_string()),
                    }),
                }]),
            },
            finish_reason: Some("tool_calls".to_string()),
        }],
        usage: Some(ChatCompletionUsage {
            prompt_tokens: Some(7),
            completion_tokens: Some(5),
            total_tokens: Some(12),
            prompt_tokens_details: None,
            completion_tokens_details: None,
        }),
    });

    assert!(matches!(
        text_events.as_slice(),
        [ResponseEvent::OutputTextDelta(delta)] if delta == "hello"
    ));
    assert!(matches!(
        tool_events.as_slice(),
        [ResponseEvent::ToolCallInputDelta { delta, .. }] if delta == "{\"cmd\":"
    ));

    let terminal = state.terminal_events();
    assert!(matches!(
        terminal.as_slice(),
        [
            ResponseEvent::OutputItemDone(ResponseItem::Message { .. }),
            ResponseEvent::OutputItemDone(ResponseItem::FunctionCall {
                name,
                arguments,
                call_id,
                ..
            }),
            ResponseEvent::Completed {
                response_id,
                token_usage: Some(TokenUsage { total_tokens: 12, .. }),
                end_turn: Some(false),
            }
        ] if name == "shell"
            && arguments == "{\"cmd\":\"ls\"}"
            && call_id == "call_1"
            && response_id == "chatcmpl-1"
    ));
}

use growcli_chat::chat_stream::delta_content_to_string;
use growcli_chat::chat_stream::process_sse_input;
use growcli_chat::chat_stream::token_usage_from;
use growcli_chat::chat_stream::ApiError;
use growcli_chat::chat_stream::ChatCompletionTokensDetails;
use growcli_chat::chat_stream::ChatPromptTokensDetails;
use growcli_chat::chat_stream::SseInput;
use growcli_chat::model::ContentItem;

fn text_part(text: &str) -> JsonValue {
    JsonValue::Object(vec![
        ("text".to_string(), JsonValue::String(text.to_string())),
        ("type".to_string(), JsonValue::String("text".to_string())),
    ])
}

fn choice(index: Option<u32>, content: Option<JsonValue>, finish: Option<&str>) -> ChatCompletionChoice {
    ChatCompletionChoice {
        index,
        delta: ChatCompletionDelta {
            content,
            tool_calls: None,
        },
        finish_reason: finish.map(|s| s.to_string()),
    }
}

fn text_chunk(text: &str, finish: Option<&str>) -> ChatCompletionChunk {
    ChatCompletionChunk {
        id: None,
        choices: vec![choice(None, Some(JsonValue::String(text.to_string())), finish)],
        usage: None,
    }
}

#[test]
fn delta_content_forms() {
    assert_eq!(
        delta_content_to_string(&JsonValue::String("hi".to_string())),
        Some("hi".to_string())
    );
    assert_eq!(
        delta_content_to_string(&JsonValue::Array(vec![
            text_part("a"),
            JsonValue::Object(vec![("image_url".to_string(), JsonValue::Null)]),
            JsonValue::Object(vec![("text".to_string(), JsonValue::Number("3".to_string()))]),
            text_part("b"),
        ])),
        Some("ab".to_string())
    );
    assert_eq!(
        delta_content_to_string(&JsonValue::Array(vec![text_part("")])),
        None
    );
    assert_eq!(delta_content_to_string(&JsonValue::Null), None);
    assert_eq!(delta_content_to_string(&JsonValue::Bool(true)), None);
    assert_eq!(
        delta_content_to_string(&JsonValue::Number("1".to_string())),
        None
    );
    assert_eq!(delta_content_to_string(&text_part("x")), None);
}

#[test]
fn usage_defaults_and_saturating_total() {
    let usage = token_usage_from(ChatCompletionUsage {
        prompt_tokens: Some(i64::MAX),
        completion_tokens: Some(5),
        total_tokens: None,
        prompt_tokens_details: Some(ChatPromptTokensDetails {
            cached_tokens: Some(4),
        }),
        completion_tokens_details: Some(ChatCompletionTokensDetails {
            reasoning_tokens: None,
        }),
    });
    assert_eq!(
        usage,
        TokenUsage {
            input_tokens: i64::MAX,
            cached_input_tokens: 4,
            output_tokens: 5,
            reasoning_output_tokens: 0,
            total_tokens: i64::MAX,
        }
    );
    let usage = token_usage_from(ChatCompletionUsage {
        prompt_tokens: Some(7),
        completion_tokens: None,
        total_tokens: None,
        prompt_tokens_details: None,
        completion_tokens_details: Some(ChatCompletionTokensDetails {
            reasoning_tokens: Some(2),
        }),
    });
    assert_eq!(usage.total_tokens, 7);
    assert_eq!(usage.reasoning_output_tokens, 2);
    let usage = token_usage_from(ChatCompletionUsage {
        prompt_tokens: Some(i64::MIN),
        completion_tokens: Some(-1),
        total_tokens: None,
        prompt_tokens_details: None,
        completion_tokens_details: None,
    });
    assert_eq!(usage.total_tokens, i64::MIN);
}

#[test]
fn other_choices_are_ignored_and_empty_text_is_not_announced() {
    let mut state = ChatCompletionsState::default();
    let events = state.apply_chunk(ChatCompletionChunk {
        id: None,
        choices: vec![
            choice(Some(1), Some(JsonValue::String("other".to_string())), Some("stop")),
            choice(Some(0), Some(JsonValue::String(String::new())), None),
            choice(None, Some(JsonValue::String("mine".to_string())), None),
        ],
        usage: None,
    });
    assert_eq!(events, vec![ResponseEvent::OutputTextDelta("mine".to_string())]);
    assert!(!state.finished);
    assert_eq!(state.text, "mine");
}

#[test]
fn unnamed_tool_calls_take_their_index_label() {
    let mut state = ChatCompletionsState::new();
    let events = state.apply_chunk(ChatCompletionChunk {
        id: None,
        choices: vec![ChatCompletionChoice {
            index: None,
            delta: ChatCompletionDelta {
                content: None,
                tool_calls: Some(vec![
                    ChatCompletionToolCallDelta {
                        index: Some(12),
                        id: None,
                        function: Some(ChatCompletionFunctionDelta {
                            name: None,
                            arguments: Some("{}".to_string()),
                        }),
                    },
                    ChatCompletionToolCallDelta {
                        index: None,
                        id: Some("call_a".to_string()),
                        function: Some(ChatCompletionFunctionDelta {
                            name: Some("read".to_string()),
                            arguments: Some(String::new()),
                        }),
                    },
                ]),
            },
            finish_reason: Some("tool_calls".to_string()),
        }],
        usage: None,
    });
    assert_eq!(
        events,
        vec![ResponseEvent::ToolCallInputDelta {
            item_id: "tool_call_12".to_string(),
            call_id: None,
            delta: "{}".to_string(),
        }]
    );
    assert!(state.finished);
    let terminal = state.terminal_events();
    assert_eq!(
        terminal,
        vec![
            ResponseEvent::OutputItemDone(ResponseItem::FunctionCall {
                id: None,
                name: "read".to_string(),
                namespace: None,
                arguments: String::new(),
                call_id: "call_a".to_string(),
            }),
            ResponseEvent::OutputItemDone(ResponseItem::FunctionCall {
                id: None,
                name: "tool_call_12".to_string(),
                namespace: None,
                arguments: "{}".to_string(),
                call_id: "tool_call_12".to_string(),
            }),
            ResponseEvent::Completed {
                response_id: String::new(),
                token_usage: None,
                end_turn: Some(false),
            },
        ]
    );
    assert_eq!(
        state.terminal_events(),
        vec![ResponseEvent::Completed {
            response_id: String::new(),
            token_usage: None,
            end_turn: Some(true),
        }]
    );
}

#[test]
fn text_only_response_ends_the_turn() {
    let mut state = ChatCompletionsState::new();
    let _ = state.apply_chunk(text_chunk("Hel", None));
    let _ = state.apply_chunk(text_chunk("lo", Some("stop")));
    assert_eq!(
        state.terminal_events(),
        vec![
            ResponseEvent::OutputItemDone(ResponseItem::Message {
                id: None,
                role: "assistant".to_string(),
                content: vec![ContentItem::OutputText {
                    text: "Hello".to_string()
                }],
            }),
            ResponseEvent::Completed {
                response_id: String::new(),
                token_usage: None,
                end_turn: Some(true),
            },
        ]
    );
    assert_eq!(state.text, "");
}

#[test]
fn sse_done_marker_closes_the_response() {
    let mut state = ChatCompletionsState::new();
    let step = process_sse_input(
        &mut state,
        SseInput::Event {
            data: "data".to_string(),
            chunk: Some(text_chunk("hi", None)),
        },
    );
    assert!(!step.done);
    assert_eq!(
        step.outputs,
        vec![Ok(ResponseEvent::OutputTextDelta("hi".to_string()))]
    );
    let step = process_sse_input(
        &mut state,
        SseInput::Event {
            data: "  [DONE]\n".to_string(),
            chunk: None,
        },
    );
    assert!(step.done);
    assert!(state.finished);
    assert_eq!(step.outputs.len(), 2);
    assert!(matches!(
        step.outputs.last(),
        Some(Ok(ResponseEvent::Completed {
            end_turn: Some(true),
            ..
        }))
    ));
}

#[test]
fn sse_unreadable_event_is_skipped() {
    let mut state = ChatCompletionsState::new();
    let step = process_sse_input(
        &mut state,
        SseInput::Event {
            data: "{not json".to_string(),
            chunk: None,
        },
    );
    assert!(!step.done);
    assert!(step.outputs.is_empty());
}

#[test]
fn sse_finish_reason_closes_after_the_chunk_events() {
    let mut state = ChatCompletionsState::new();
    let step = process_sse_input(
        &mut state,
        SseInput::Event {
            data: "x".to_string(),
            chunk: Some(text_chunk("bye", Some("stop"))),
        },
    );
    assert!(step.done);
    assert_eq!(step.outputs.len(), 3);
    assert_eq!(
        step.outputs[0],
        Ok(ResponseEvent::OutputTextDelta("bye".to_string()))
    );
}

#[test]
fn sse_errors_end_the_stream() {
    let mut state = ChatCompletionsState::new();
    let step = process_sse_input(&mut state, SseInput::Closed);
    assert!(step.done);
    assert_eq!(
        step.outputs,
        vec![Err(ApiError::Stream(
            "stream closed before chat completion finished".to_string()
        ))]
    );
    let step = process_sse_input(&mut state, SseInput::IdleTimeout);
    assert_eq!(
        step.outputs,
        vec![Err(ApiError::Stream("idle timeout waiting for SSE".to_string()))]
    );
    let step = process_sse_input(&mut state, SseInput::StreamError("reset".to_string()));
    assert!(step.done);
    assert_eq!(step.outputs, vec![Err(ApiError::Stream("reset".to_string()))]);
}

#[test]
fn sse_close_after_finish_gives_the_closing_events() {
    let mut state = ChatCompletionsState::new();
    state.finished = true;
    let step = process_sse_input(&mut state, SseInput::Closed);
    assert!(step.done);
    assert_eq!(
        step.outputs,
        vec![Ok(ResponseEvent::Completed {
            response_id: String::new(),
            token_usage: None,
            end_turn: Some(true),
        })]
    );
}

fn run_stream(inputs: Vec<SseInput>) -> Vec<Result<ResponseEvent, ApiError>> {
    let mut state = ChatCompletionsState::new();
    let mut sent = Vec::new();
    for input in inputs {
        let step = process_sse_input(&mut state, input);
        sent.extend(step.outputs);
        if step.done {
            break;
        }
    }
    sent
}

fn unreadable(data: &str) -> SseInput {
    SseInput::Event {
        data: data.to_string(),
        chunk: None,
    }
}

#[test]
fn sse_unreadable_events_change_nothing_over_a_stream() {
    let plain = run_stream(vec![
        SseInput::Event {
            data: "a".to_string(),
            chunk: Some(text_chunk("he", None)),
        },
        SseInput::Event {
            data: "b".to_string(),
            chunk: Some(text_chunk("llo", None)),
        },
        unreadable("[DONE]"),
    ]);
    let noisy = run_stream(vec![
        unreadable("{oops"),
        SseInput::Event {
            data: "a".to_string(),
            chunk: Some(text_chunk("he", None)),
        },
        unreadable(""),
        unreadable("not a chunk"),
        SseInput::Event {
            data: "b".to_string(),
            chunk: Some(text_chunk("llo", None)),
        },
        unreadable(": keep-alive"),
        unreadable("[DONE]"),
    ]);
    assert_eq!(plain.len(), 4);
    assert_eq!(plain, noisy);
}
