use growcli_chat::chat_request::build_chat_completions_request;
use growcli_chat::chat_request::chat_content_from_content_items;
use growcli_chat::chat_request::chat_messages_from_response_items;
use growcli_chat::chat_request::chat_tool_name;
use growcli_chat::chat_request::content_items_to_text;
use growcli_chat::chat_request::create_tools_json_for_chat_completions;
use growcli_chat::chat_request::image_detail_value;
use growcli_chat::chat_request::ChatContent;
use growcli_chat::chat_request::ChatContentPart;
use growcli_chat::chat_request::ChatMessage;
use growcli_chat::chat_request::ChatTool;
use growcli_chat::chat_request::ChatToolCall;
use growcli_chat::chat_request::Prompt;
use growcli_chat::chat_request::ResponsesApiNamespace;
use growcli_chat::chat_request::ResponsesApiNamespaceTool;
use growcli_chat::chat_request::ResponsesApiTool;
use growcli_chat::chat_request::ToolSpec;
use growcli_chat::json::JsonValue;
use growcli_chat::model::ContentItem;
use growcli_chat::model::FunctionCallOutputPayload;
use growcli_chat::model::ImageDetail;
use growcli_chat::model::ResponseItem;

fn object_schema() -> JsonValue {
    JsonValue::Object(vec![
        ("properties".to_string(), JsonValue::Object(vec![])),
        ("type".to_string(), JsonValue::String("object".to_string())),
    ])
}

fn function_tool(name: &str, description: &str) -> ResponsesApiTool {
    ResponsesApiTool {
        name: name.to_string(),
        description: description.to_string(),
        parameters: object_schema(),
    }
}

fn text_message(role: &str, text: &str) -> ChatMessage {
    ChatMessage::Content {
        role: role.to_string(),
        content: ChatContent::Text(text.to_string()),
    }
}

#[test]
fn maps_messages_tool_calls_and_outputs() {
    let items = vec![
        ResponseItem::Message {
            id: None,
            role: "user".to_string(),
            content: vec![ContentItem::InputText {
                text: "hello".to_string(),
            }],
        },
        ResponseItem::FunctionCall {
            id: None,
            name: "shell".to_string(),
            namespace: None,
            arguments: "{\"cmd\":\"ls\"}".to_string(),
            call_id: "call_1".to_string(),
        },
        ResponseItem::FunctionCallOutput {
            call_id: "call_1".to_string(),
            output: FunctionCallOutputPayload::from_text("ok".to_string()),
        },
    ];

    assert_eq!(
        chat_messages_from_response_items(&items),
        vec![
            text_message("user", "hello"),
            ChatMessage::ToolCalls {
                tool_calls: vec![ChatToolCall {
                    id: "call_1".to_string(),
                    name: "shell".to_string(),
                    arguments: "{\"cmd\":\"ls\"}".to_string(),
                }],
            },
            ChatMessage::ToolOutput {
                tool_call_id: "call_1".to_string(),
                content: "ok".to_string(),
            },
        ]
    );
}

#[test]
fn maps_function_tools_to_chat_shape() {
    let tools = create_tools_json_for_chat_completions(&vec![ToolSpec::Function(function_tool(
        "shell",
        "Run a shell command",
    ))]);

    assert_eq!(
        tools,
        vec![ChatTool {
            name: "shell".to_string(),
            description: "Run a shell command".to_string(),
            parameters: object_schema(),
        }]
    );
}

#[test]
fn namespace_tools_take_the_namespace_in_front_and_other_tools_are_dropped() {
    let tools = create_tools_json_for_chat_completions(&vec![
        ToolSpec::LocalShell,
        ToolSpec::Namespace(ResponsesApiNamespace {
            name: "mcp__files__".to_string(),
            tools: vec![
                ResponsesApiNamespaceTool::Function(function_tool("read", "Read a file")),
                ResponsesApiNamespaceTool::Function(function_tool("write", "Write a file")),
            ],
        }),
        ToolSpec::WebSearch,
        ToolSpec::Freeform,
        ToolSpec::Function(function_tool("shell", "Run a shell command")),
        ToolSpec::ImageGeneration,
        ToolSpec::ToolSearch,
    ]);
    let names: Vec<&str> = tools.iter().map(|t| t.name.as_str()).collect();
    assert_eq!(names, vec!["mcp__files__read", "mcp__files__write", "shell"]);
    assert_eq!(tools[1].description, "Write a file");
}

#[test]
fn consecutive_calls_share_one_assistant_message() {
    let items = vec![
        ResponseItem::FunctionCall {
            id: None,
            name: "read".to_string(),
            namespace: Some("mcp__files__".to_string()),
            arguments: "{}".to_string(),
            call_id: "c1".to_string(),
        },
        ResponseItem::Reasoning,
        ResponseItem::CustomToolCall {
            call_id: "c2".to_string(),
            name: "apply_patch".to_string(),
            input: "*** Begin Patch".to_string(),
        },
        ResponseItem::CustomToolCallOutput {
            call_id: "c2".to_string(),
            output: FunctionCallOutputPayload { text: None },
        },
        ResponseItem::FunctionCall {
            id: None,
            name: "shell".to_string(),
            namespace: None,
            arguments: "{}".to_string(),
            call_id: "c3".to_string(),
        },
    ];
    assert_eq!(
        chat_messages_from_response_items(&items),
        vec![
            ChatMessage::ToolCalls {
                tool_calls: vec![
                    ChatToolCall {
                        id: "c1".to_string(),
                        name: "mcp__files__read".to_string(),
                        arguments: "{}".to_string(),
                    },
                    ChatToolCall {
                        id: "c2".to_string(),
                        name: "apply_patch".to_string(),
                        arguments: "*** Begin Patch".to_string(),
                    },
                ],
            },
            ChatMessage::ToolOutput {
                tool_call_id: "c2".to_string(),
                content: String::new(),
            },
            ChatMessage::ToolCalls {
                tool_calls: vec![ChatToolCall {
                    id: "c3".to_string(),
                    name: "shell".to_string(),
                    arguments: "{}".to_string(),
                }],
            },
        ]
    );
}

#[test]
fn items_without_chat_shape_give_no_message() {
    let items = vec![
        ResponseItem::Reasoning,
        ResponseItem::LocalShellCall,
        ResponseItem::WebSearchCall,
        ResponseItem::Compaction,
        ResponseItem::Other,
    ];
    assert!(chat_messages_from_response_items(&items).is_empty());
}

#[test]
fn text_content_is_joined_with_newlines() {
    let content = vec![
        ContentItem::InputText {
            text: "a".to_string(),
        },
        ContentItem::OutputText {
            text: "b".to_string(),
        },
        ContentItem::InputText {
            text: String::new(),
        },
    ];
    assert_eq!(content_items_to_text(&content), "a\nb\n");
    assert_eq!(
        chat_content_from_content_items(&content),
        ChatContent::Text("a\nb\n".to_string())
    );
    assert_eq!(content_items_to_text(&vec![]), "");
}

#[test]
fn content_with_an_image_becomes_parts() {
    let content = vec![
        ContentItem::InputText {
            text: "look".to_string(),
        },
        ContentItem::InputImage {
            image_url: "data:image/png;base64,AAAA".to_string(),
            detail: Some(ImageDetail::High),
        },
        ContentItem::InputImage {
            image_url: "https://example.com/a.png".to_string(),
            detail: None,
        },
    ];
    assert_eq!(
        chat_content_from_content_items(&content),
        ChatContent::Parts(vec![
            ChatContentPart::Text {
                text: "look".to_string()
            },
            ChatContentPart::ImageUrl {
                url: "data:image/png;base64,AAAA".to_string(),
                detail: Some("high".to_string()),
            },
            ChatContentPart::ImageUrl {
                url: "https://example.com/a.png".to_string(),
                detail: None,
            },
        ])
    );
}

#[test]
fn image_details_have_their_wire_names() {
    assert_eq!(image_detail_value(ImageDetail::Auto), "auto");
    assert_eq!(image_detail_value(ImageDetail::Low), "low");
    assert_eq!(image_detail_value(ImageDetail::High), "high");
    assert_eq!(image_detail_value(ImageDetail::Original), "original");
}

#[test]
fn tool_name_joins_namespace_and_name() {
    assert_eq!(chat_tool_name(Some("mcp__git__"), "status"), "mcp__git__status");
    assert_eq!(chat_tool_name(None, "status"), "status");
    assert_eq!(chat_tool_name(Some(""), "status"), "status");
}

#[test]
fn request_with_instructions_and_tools() {
    let prompt = Prompt {
        base_instructions: "Be brief.".to_string(),
        input: vec![ResponseItem::Message {
            id: None,
            role: "user".to_string(),
            content: vec![ContentItem::InputText {
                text: "hi".to_string(),
            }],
        }],
        tools: vec![ToolSpec::Function(function_tool("shell", "Run"))],
        parallel_tool_calls: true,
    };
    let request = build_chat_completions_request(&prompt, "model-x");
    assert_eq!(request.model, "model-x");
    assert_eq!(
        request.messages,
        vec![text_message("system", "Be brief."), text_message("user", "hi")]
    );
    assert_eq!(request.tools.len(), 1);
    assert_eq!(request.tool_choice.as_deref(), Some("auto"));
    assert!(request.parallel_tool_calls);
    assert!(request.stream);
}

#[test]
fn request_without_tools_or_instructions() {
    let prompt = Prompt {
        base_instructions: " \n\t\u{3000}".to_string(),
        input: vec![],
        tools: vec![ToolSpec::LocalShell],
        parallel_tool_calls: true,
    };
    let request = build_chat_completions_request(&prompt, "m");
    assert!(request.messages.is_empty());
    assert!(request.tools.is_empty());
    assert_eq!(request.tool_choice, None);
    assert!(!request.parallel_tool_calls);
    assert!(request.stream);
}
