//! The JSON form of Chat Completions messages and tools, as the request body
//! carries them. Object members are listed in key order, the order a JSON
//! object map keeps them in.

use vstd::prelude::*;
use crate::chat_request::call_views;
use crate::chat_request::message_views;
use crate::chat_request::tool_views;
use crate::chat_request::ChatContent;
use crate::chat_request::ChatContentPart;
use crate::chat_request::ChatContentPartView;
use crate::chat_request::ChatContentView;
use crate::chat_request::ChatMessage;
use crate::chat_request::ChatMessageView;
use crate::chat_request::ChatTool;
use crate::chat_request::ChatToolCall;
use crate::chat_request::ChatToolCallView;
use crate::chat_request::ChatToolView;
use crate::json::clone_json;
use crate::json::Json;
use crate::json::JsonValue;

verus! {

/// `{"function": {"arguments", "name"}, "id", "type": "function"}`
pub open spec fn tool_call_json(c: ChatToolCallView) -> Json {
    Json::Object(
        seq![
            ("function"@, Json::Object(seq![("arguments"@, Json::Str(c.arguments)), ("name"@, Json::Str(c.name))])),
            ("id"@, Json::Str(c.id)),
            ("type"@, Json::Str("function"@)),
        ],
    )
}

/// `{"text", "type": "text"}` or `{"image_url": {"detail"?, "url"}, "type": "image_url"}`
pub open spec fn part_json(p: ChatContentPartView) -> Json {
    match p {
        ChatContentPartView::Text { text } => Json::Object(
            seq![("text"@, Json::Str(text)), ("type"@, Json::Str("text"@))],
        ),
        ChatContentPartView::ImageUrl { url, detail } => Json::Object(
            seq![("image_url"@, image_url_json(url, detail)), ("type"@, Json::Str("image_url"@))],
        ),
    }
}

/// `{"detail"?, "url"}`
pub open spec fn image_url_json(url: Seq<char>, detail: Option<Seq<char>>) -> Json {
    match detail {
        Some(d) => Json::Object(seq![("detail"@, Json::Str(d)), ("url"@, Json::Str(url))]),
        None => Json::Object(seq![("url"@, Json::Str(url))]),
    }
}

/// A string, or an array of parts.
pub open spec fn content_json(c: ChatContentView) -> Json {
    match c {
        ChatContentView::Text(t) => Json::Str(t),
        ChatContentView::Parts(ps) => Json::Array(ps.map_values(|p: ChatContentPartView| part_json(p))),
    }
}

/// `{"content", "role"}`; `{"content": "", "role": "assistant", "tool_calls"}`;
/// `{"content", "role": "tool", "tool_call_id"}`.
pub open spec fn message_json(m: ChatMessageView) -> Json {
    match m {
        ChatMessageView::Content { role, content } => Json::Object(
            seq![("content"@, content_json(content)), ("role"@, Json::Str(role))],
        ),
        ChatMessageView::ToolCalls { tool_calls } => Json::Object(
            seq![
                ("content"@, Json::Str(Seq::empty())),
                ("role"@, Json::Str("assistant"@)),
                ("tool_calls"@, Json::Array(tool_calls.map_values(|c: ChatToolCallView| tool_call_json(c)))),
            ],
        ),
        ChatMessageView::ToolOutput { tool_call_id, content } => Json::Object(
            seq![
                ("content"@, Json::Str(content)),
                ("role"@, Json::Str("tool"@)),
                ("tool_call_id"@, Json::Str(tool_call_id)),
            ],
        ),
    }
}

/// `{"function": {"description", "name", "parameters"}, "type": "function"}`
pub open spec fn tool_json(t: ChatToolView) -> Json {
    Json::Object(
        seq![
            ("function"@, Json::Object(
                seq![
                    ("description"@, Json::Str(t.description)),
                    ("name"@, Json::Str(t.name)),
                    ("parameters"@, t.parameters),
                ],
            )),
            ("type"@, Json::Str("function"@)),
        ],
    )
}

/// The mathematical forms of JSON values.
pub open spec fn json_seq_views(s: Seq<JsonValue>) -> Seq<Json> {
    s.map_values(|v: JsonValue| v@)
}

fn jstr(s: &str) -> (v: JsonValue)
    ensures
        v@ == Json::Str(s@),
{
    JsonValue::String(s.to_owned())
}

fn object2(k1: &str, v1: JsonValue, k2: &str, v2: JsonValue) -> (v: JsonValue)
    ensures
        v@ == Json::Object(seq![(k1@, v1@), (k2@, v2@)]),
{
    let v = JsonValue::Object(vec![(k1.to_owned(), v1), (k2.to_owned(), v2)]);
    proof {
        let f = match v@ {
            Json::Object(f) => f,
            _ => Seq::empty(),
        };
        assert(f =~= seq![(k1@, v1@), (k2@, v2@)]);
    }
    v
}

fn object3(k1: &str, v1: JsonValue, k2: &str, v2: JsonValue, k3: &str, v3: JsonValue) -> (v: JsonValue)
    ensures
        v@ == Json::Object(seq![(k1@, v1@), (k2@, v2@), (k3@, v3@)]),
{
    let v = JsonValue::Object(vec![(k1.to_owned(), v1), (k2.to_owned(), v2), (k3.to_owned(), v3)]);
    proof {
        let f = match v@ {
            Json::Object(f) => f,
            _ => Seq::empty(),
        };
        assert(f =~= seq![(k1@, v1@), (k2@, v2@), (k3@, v3@)]);
    }
    v
}

/// The JSON of a tool call.
pub fn tool_call_to_json(c: &ChatToolCall) -> (v: JsonValue)
    ensures
        v@ == tool_call_json(c@),
{
    let function = object2("arguments", jstr(c.arguments.as_str()), "name", jstr(c.name.as_str()));
    object3("function", function, "id", jstr(c.id.as_str()), "type", jstr("function"))
}

/// The JSON of a content part.
pub fn content_part_to_json(p: &ChatContentPart) -> (v: JsonValue)
    ensures
        v@ == part_json(p@),
{
    match p {
        ChatContentPart::Text { text } => object2("text", jstr(text.as_str()), "type", jstr("text")),
        ChatContentPart::ImageUrl { url, detail } => {
            let image_url = image_url_to_json(url.as_str(), detail);
            object2("image_url", image_url, "type", jstr("image_url"))
        },
    }
}

fn image_url_to_json(url: &str, detail: &Option<String>) -> (v: JsonValue)
    ensures
        v@ == image_url_json(url@, crate::model::opt_chars(*detail)),
{
    match detail {
        Some(d) => object2("detail", jstr(d.as_str()), "url", jstr(url)),
        None => {
            let v = JsonValue::Object(vec![("url".to_owned(), jstr(url))]);
            proof {
                let f = match v@ {
                    Json::Object(f) => f,
                    _ => Seq::empty(),
                };
                assert(f =~= seq![("url"@, Json::Str(url@))]);
            }
            v
        },
    }
}

proof fn lemma_array_view(items: Vec<JsonValue>)
    ensures
        JsonValue::Array(items)@ == Json::Array(json_seq_views(items@)),
{
    let a = match JsonValue::Array(items)@ {
        Json::Array(a) => a,
        _ => Seq::empty(),
    };
    assert(a =~= json_seq_views(items@));
}

/// The JSON of message content.
pub fn content_to_json(c: &ChatContent) -> (v: JsonValue)
    ensures
        v@ == content_json(c@),
{
    match c {
        ChatContent::Text(t) => jstr(t.as_str()),
        ChatContent::Parts(parts) => {
            let mut out: Vec<JsonValue> = Vec::new();
            let n = parts.len();
            let mut i: usize = 0;
            while i < n
                invariant
                    i <= n == parts.len(),
                    out.len() == i,
                    forall|j: int| 0 <= j < i ==> #[trigger] out@[j]@ == part_json(parts@[j]@),
                decreases n - i,
            {
                out.push(content_part_to_json(&parts[i]));
                i = i + 1;
            }
            proof {
                lemma_array_view(out);
                assert(json_seq_views(out@) =~= parts@.map_values(|x: ChatContentPart| x@).map_values(
                    |p: ChatContentPartView| part_json(p),
                ));
            }
            JsonValue::Array(out)
        },
    }
}

/// The JSON of tool calls.
fn tool_calls_to_json(calls: &Vec<ChatToolCall>) -> (v: JsonValue)
    ensures
        v@ == Json::Array(call_views(calls@).map_values(|c: ChatToolCallView| tool_call_json(c))),
{
    let mut out: Vec<JsonValue> = Vec::new();
    let n = calls.len();
    let mut i: usize = 0;
    while i < n
        invariant
            i <= n == calls.len(),
            out.len() == i,
            forall|j: int| 0 <= j < i ==> #[trigger] out@[j]@ == tool_call_json(calls@[j]@),
        decreases n - i,
    {
        out.push(tool_call_to_json(&calls[i]));
        i = i + 1;
    }
    proof {
        lemma_array_view(out);
        assert(json_seq_views(out@) =~= call_views(calls@).map_values(|c: ChatToolCallView| tool_call_json(c)));
    }
    JsonValue::Array(out)
}

/// The JSON of a message.
pub fn message_to_json(m: &ChatMessage) -> (v: JsonValue)
    ensures
        v@ == message_json(m@),
{
    match m {
        ChatMessage::Content { role, content } => object2(
            "content",
            content_to_json(content),
            "role",
            jstr(role.as_str()),
        ),
        ChatMessage::ToolCalls { tool_calls } => {
            let empty = JsonValue::String(String::new());
            assert(empty@ == Json::Str(Seq::empty()));
            object3("content", empty, "role", jstr("assistant"), "tool_calls", tool_calls_to_json(tool_calls))
        },
        ChatMessage::ToolOutput { tool_call_id, content } => object3(
            "content",
            jstr(content.as_str()),
            "role",
            jstr("tool"),
            "tool_call_id",
            jstr(tool_call_id.as_str()),
        ),
    }
}

/// The JSON of a tool.
pub fn tool_to_json(t: &ChatTool) -> (v: JsonValue)
    ensures
        v@ == tool_json(t@),
{
    let function = object3(
        "description",
        jstr(t.description.as_str()),
        "name",
        jstr(t.name.as_str()),
        "parameters",
        clone_json(&t.parameters),
    );
    object2("function", function, "type", jstr("function"))
}

/// The JSON of each message, in order.
pub fn messages_to_json(messages: &Vec<ChatMessage>) -> (out: Vec<JsonValue>)
    ensures
        json_seq_views(out@) == message_views(messages@).map_values(|m: ChatMessageView| message_json(m)),
{
    let mut out: Vec<JsonValue> = Vec::new();
    let n = messages.len();
    let mut i: usize = 0;
    while i < n
        invariant
            i <= n == messages.len(),
            out.len() == i,
            forall|j: int| 0 <= j < i ==> #[trigger] out@[j]@ == message_json(messages@[j]@),
        decreases n - i,
    {
        out.push(message_to_json(&messages[i]));
        i = i + 1;
    }
    assert(json_seq_views(out@) =~= message_views(messages@).map_values(|m: ChatMessageView| message_json(m)));
    out
}

/// The JSON of each tool, in order.
pub fn tools_to_json(tools: &Vec<ChatTool>) -> (out: Vec<JsonValue>)
    ensures
        json_seq_views(out@) == tool_views(tools@).map_values(|t: ChatToolView| tool_json(t)),
{
    let mut out: Vec<JsonValue> = Vec::new();
    let n = tools.len();
    let mut i: usize = 0;
    while i < n
        invariant
            i <= n == tools.len(),
            out.len() == i,
            forall|j: int| 0 <= j < i ==> #[trigger] out@[j]@ == tool_json(tools@[j]@),
        decreases n - i,
    {
        out.push(tool_to_json(&tools[i]));
        i = i + 1;
    }
    assert(json_seq_views(out@) =~= tool_views(tools@).map_values(|t: ChatToolView| tool_json(t)));
    out
}

} // verus!
