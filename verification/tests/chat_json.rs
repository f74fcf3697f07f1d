use growcli_chat::chat_json::content_part_to_json;
use growcli_chat::chat_json::messages_to_json;
use growcli_chat::chat_json::tools_to_json;
use growcli_chat::chat_request::chat_messages_from_response_items;
use growcli_chat::chat_request::create_tools_json_for_chat_completions;
use growcli_chat::chat_request::ChatContentPart;
use growcli_chat::chat_request::ResponsesApiTool;
use growcli_chat::chat_request::ToolSpec;
use growcli_chat::json::JsonValue;
use growcli_chat::model::ContentItem;
use growcli_chat::model::FunctionCallOutputPayload;
use growcli_chat::model::ResponseItem;
use serde_json::Value;

fn to_value(v: &JsonValue) -> Value {
    match v {
        JsonValue::Null => Value::Null,
        JsonValue::Bool(b) => Value::Bool(*b),
        JsonValue::Number(n) => Value::Number(n.parse().expect("number")),
        JsonValue::String(s) => Value::String(s.clone()),
        JsonValue::Array(items) => Value::Array(items.iter().map(to_value).collect()),
        JsonValue::Object(fields) => Value::Object(
            fields.iter().map(|(k, v)| (k.clone(), to_value(v))).collect(),
        ),
    }
}

fn parse(text: &str) -> Value {
    serde_json::from_str(text).expect("expected JSON")
}

#[test]
fn messages_render_in_chat_shape() {
    let items = vec![
        ResponseItem::Message {
            id: None,
            role: "user".to_string(),
            content: vec![ContentItem::InputText {
                text: "hello".to_string(),
            }],
        },
        ResponseItem::FunctionCall {
            id: None,
            name: "shell".to_string(),
            namespace: None,
            arguments: "{\"cmd\":\"ls\"}".to_string(),
            call_id: "call_1".to_string(),
        },
        ResponseItem::FunctionCallOutput {
            call_id: "call_1".to_string(),
            output: FunctionCallOutputPayload::from_text("ok".to_string()),
        },
    ];
    let rendered: Vec<Value> = messages_to_json(&chat_messages_from_response_items(&items))
        .iter()
        .map(to_value)
        .collect();
    assert_eq!(
        rendered,
        vec![
            parse(r#"{"role": "user", "content": "hello"}"#),
            parse(
                r#"{"role": "assistant", "content": "", "tool_calls": [{"id": "call_1", "type": "function", "function": {"name": "shell", "arguments": "{\"cmd\":\"ls\"}"}}]}"#
            ),
            parse(r#"{"role": "tool", "tool_call_id": "call_1", "content": "ok"}"#),
        ]
    );
}

#[test]
fn tools_render_in_chat_shape() {
    let tools = create_tools_json_for_chat_completions(&vec![ToolSpec::Function(ResponsesApiTool {
        name: "shell".to_string(),
        description: "Run a shell command".to_string(),
        parameters: JsonValue::Object(vec![
            ("properties".to_string(), JsonValue::Object(vec![])),
            ("type".to_string(), JsonValue::String("object".to_string())),
        ]),
    })]);
    let rendered: Vec<Value> = tools_to_json(&tools).iter().map(to_value).collect();
    assert_eq!(
        rendered,
        vec![parse(
            r#"{"type": "function", "function": {"name": "shell", "description": "Run a shell command", "parameters": {"type": "object", "properties": {}}}}"#
        )]
    );
}

#[test]
fn content_parts_render_in_chat_shape() {
    let image = content_part_to_json(&ChatContentPart::ImageUrl {
        url: "https://example.com/a.png".to_string(),
        detail: Some("low".to_string()),
    });
    assert_eq!(
        to_value(&image),
        parse(r#"{"type": "image_url", "image_url": {"url": "https://example.com/a.png", "detail": "low"}}"#)
    );
    let plain = content_part_to_json(&ChatContentPart::ImageUrl {
        url: "u".to_string(),
        detail: None,
    });
    assert_eq!(
        to_value(&plain),
        parse(r#"{"type": "image_url", "image_url": {"url": "u"}}"#)
    );
    let text = content_part_to_json(&ChatContentPart::Text {
        text: "hi".to_string(),
    });
    assert_eq!(to_value(&text), parse(r#"{"type": "text", "text": "hi"}"#));
    assert_eq!(
        text,
        JsonValue::Object(vec![
            ("text".to_string(), JsonValue::String("hi".to_string())),
            ("type".to_string(), JsonValue::String("text".to_string())),
        ])
    );
}
