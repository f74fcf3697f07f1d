//! Mapping of response items and tools into a Chat Completions request.

use vstd::prelude::*;
use vstd::string::StringExecFns;
use crate::json::clone_json;
use crate::json::Json;
use crate::json::JsonValue;
use crate::model::content_views;
use crate::model::opt_chars;
use crate::model::ContentItem;
use crate::model::ContentItemView;
use crate::model::FunctionCallOutputPayload;
use crate::model::ImageDetail;
use crate::model::ResponseItem;
use crate::model::ResponseItemView;
use crate::text::is_blank;
use crate::text::join;
use crate::text::str_is_blank;

verus! {

/// A function tool.
#[derive(Debug, PartialEq)]
pub struct ResponsesApiTool {
    pub name: String,
    pub description: String,
    /// The JSON schema of the arguments.
    pub parameters: JsonValue,
}

/// A tool inside a namespace.
#[derive(Debug, PartialEq)]
pub enum ResponsesApiNamespaceTool {
    Function(ResponsesApiTool),
}

/// A named group of tools.
#[derive(Debug, PartialEq)]
pub struct ResponsesApiNamespace {
    pub name: String,
    pub tools: Vec<ResponsesApiNamespaceTool>,
}

/// A tool offered to the model.
#[derive(Debug, PartialEq)]
pub enum ToolSpec {
    Function(ResponsesApiTool),
    Namespace(ResponsesApiNamespace),
    ToolSearch,
    LocalShell,
    ImageGeneration,
    WebSearch,
    Freeform,
}

/// A function tool in Chat Completions shape:
/// `{"type": "function", "function": {"name", "description", "parameters"}}`.
#[derive(Debug, PartialEq)]
pub struct ChatTool {
    pub name: String,
    pub description: String,
    pub parameters: JsonValue,
}

/// The mathematical form of a `ChatTool`.
pub struct ChatToolView {
    pub name: Seq<char>,
    pub description: Seq<char>,
    pub parameters: Json,
}

impl View for ChatTool {
    type V = ChatToolView;

    open spec fn view(&self) -> ChatToolView {
        ChatToolView { name: self.name@, description: self.description@, parameters: self.parameters@ }
    }
}

/// A tool call in Chat Completions shape:
/// `{"id", "type": "function", "function": {"name", "arguments"}}`.
#[derive(Debug, Clone, PartialEq)]
pub struct ChatToolCall {
    pub id: String,
    pub name: String,
    pub arguments: String,
}

/// The mathematical form of a `ChatToolCall`.
pub struct ChatToolCallView {
    pub id: Seq<char>,
    pub name: Seq<char>,
    pub arguments: Seq<char>,
}

impl View for ChatToolCall {
    type V = ChatToolCallView;

    open spec fn view(&self) -> ChatToolCallView {
        ChatToolCallView { id: self.id@, name: self.name@, arguments: self.arguments@ }
    }
}

/// One part of multi-part message content.
#[derive(Debug, PartialEq)]
pub enum ChatContentPart {
    /// `{"type": "text", "text"}`
    Text { text: String },
    /// `{"type": "image_url", "image_url": {"url", "detail"?}}`
    ImageUrl { url: String, detail: Option<String> },
}

/// The mathematical form of a `ChatContentPart`.
pub enum ChatContentPartView {
    Text { text: Seq<char> },
    ImageUrl { url: Seq<char>, detail: Option<Seq<char>> },
}

impl View for ChatContentPart {
    type V = ChatContentPartView;

    open spec fn view(&self) -> ChatContentPartView {
        match self {
            ChatContentPart::Text { text } => ChatContentPartView::Text { text: text@ },
            ChatContentPart::ImageUrl { url, detail } => ChatContentPartView::ImageUrl {
                url: url@,
                detail: opt_chars(*detail),
            },
        }
    }
}

/// The content of a message: a plain string, or a list of parts.
#[derive(Debug, PartialEq)]
pub enum ChatContent {
    Text(String),
    Parts(Vec<ChatContentPart>),
}

/// The mathematical form of a `ChatContent`.
pub enum ChatContentView {
    Text(Seq<char>),
    Parts(Seq<ChatContentPartView>),
}

impl View for ChatContent {
    type V = ChatContentView;

    open spec fn view(&self) -> ChatContentView {
        match self {
            ChatContent::Text(t) => ChatContentView::Text(t@),
            ChatContent::Parts(p) => ChatContentView::Parts(
                p@.map_values(|x: ChatContentPart| x@),
            ),
        }
    }
}

/// A message of a Chat Completions request.
#[derive(Debug, PartialEq)]
pub enum ChatMessage {
    /// `{"role", "content"}`
    Content { role: String, content: ChatContent },
    /// `{"role": "assistant", "content": "", "tool_calls"}`
    ToolCalls { tool_calls: Vec<ChatToolCall> },
    /// `{"role": "tool", "tool_call_id", "content"}`
    ToolOutput { tool_call_id: String, content: String },
}

/// The mathematical form of a `ChatMessage`.
pub enum ChatMessageView {
    Content { role: Seq<char>, content: ChatContentView },
    ToolCalls { tool_calls: Seq<ChatToolCallView> },
    ToolOutput { tool_call_id: Seq<char>, content: Seq<char> },
}

/// The mathematical forms of tool calls.
pub open spec fn call_views(s: Seq<ChatToolCall>) -> Seq<ChatToolCallView> {
    s.map_values(|c: ChatToolCall| c@)
}

impl View for ChatMessage {
    type V = ChatMessageView;

    open spec fn view(&self) -> ChatMessageView {
        match self {
            ChatMessage::Content { role, content } => ChatMessageView::Content {
                role: role@,
                content: content@,
            },
            ChatMessage::ToolCalls { tool_calls } => ChatMessageView::ToolCalls {
                tool_calls: call_views(tool_calls@),
            },
            ChatMessage::ToolOutput { tool_call_id, content } => ChatMessageView::ToolOutput {
                tool_call_id: tool_call_id@,
                content: content@,
            },
        }
    }
}

/// The mathematical forms of messages.
pub open spec fn message_views(s: Seq<ChatMessage>) -> Seq<ChatMessageView> {
    s.map_values(|m: ChatMessage| m@)
}

/// The name a tool has in Chat Completions: its namespace, if any, followed by its name.
pub open spec fn tool_name_spec(namespace: Option<Seq<char>>, name: Seq<char>) -> Seq<char> {
    match namespace {
        Some(ns) => ns + name,
        None => name,
    }
}

/// The name a tool has in Chat Completions: its namespace, if any, directly
/// followed by its name.
pub fn chat_tool_name(namespace: Option<&str>, name: &str) -> (r: String)
    ensures
        r@ == tool_name_spec(
            match namespace {
                Some(ns) => Some(ns@),
                None => None,
            },
            name@,
        ),
{
    match namespace {
        Some(ns) => {
            let mut s = ns.to_owned();
            s.append(name);
            s
        },
        None => name.to_owned(),
    }
}

/// The texts of the text items, in order (images are left out).
pub open spec fn content_texts(c: Seq<ContentItemView>) -> Seq<Seq<char>>
    decreases c.len(),
{
    if c.len() == 0 {
        Seq::empty()
    } else {
        let rest = content_texts(c.drop_last());
        match c.last() {
            ContentItemView::InputText { text } => rest.push(text),
            ContentItemView::OutputText { text } => rest.push(text),
            ContentItemView::InputImage { .. } => rest,
        }
    }
}

/// The text of content: its texts joined by newlines.
pub open spec fn content_text(c: Seq<ContentItemView>) -> Seq<char> {
    join(content_texts(c), "\n"@)
}

/// Whether content holds an image.
pub open spec fn has_image(c: Seq<ContentItemView>) -> bool {
    exists|i: int| 0 <= i < c.len() && c[i] is InputImage
}

/// The wire name of an image detail level.
pub open spec fn image_detail_name(d: ImageDetail) -> Seq<char> {
    match d {
        ImageDetail::Auto => "auto"@,
        ImageDetail::Low => "low"@,
        ImageDetail::High => "high"@,
        ImageDetail::Original => "original"@,
    }
}

/// The part that a content item becomes.
pub open spec fn content_part(item: ContentItemView) -> ChatContentPartView {
    match item {
        ContentItemView::InputText { text } => ChatContentPartView::Text { text },
        ContentItemView::OutputText { text } => ChatContentPartView::Text { text },
        ContentItemView::InputImage { image_url, detail } => ChatContentPartView::ImageUrl {
            url: image_url,
            detail: match detail {
                Some(d) => Some(image_detail_name(d)),
                None => None,
            },
        },
    }
}

/// The content of a message: the joined text when it has no image, else one
/// part per item.
pub open spec fn chat_content_spec(c: Seq<ContentItemView>) -> ChatContentView {
    if has_image(c) {
        ChatContentView::Parts(c.map_values(|x: ContentItemView| content_part(x)))
    } else {
        ChatContentView::Text(content_text(c))
    }
}

proof fn lemma_join_push(parts: Seq<Seq<char>>, sep: Seq<char>, t: Seq<char>)
    ensures
        join(parts.push(t), sep) == if parts.len() == 0 {
            t
        } else {
            join(parts, sep) + sep + t
        },
{
    assert(parts.push(t).drop_last() =~= parts);
}

/// The wire name of an image detail level.
pub fn image_detail_value(detail: ImageDetail) -> (s: String)
    ensures
        s@ == image_detail_name(detail),
{
    match detail {
        ImageDetail::Auto => "auto".to_owned(),
        ImageDetail::Low => "low".to_owned(),
        ImageDetail::High => "high".to_owned(),
        ImageDetail::Original => "original".to_owned(),
    }
}

/// The texts of the text items joined by newlines.
pub fn content_items_to_text(content: &Vec<ContentItem>) -> (s: String)
    ensures
        s@ == content_text(content_views(content@)),
{
    let ghost cv = content_views(content@);
    let mut s = String::new();
    let mut first = true;
    let n = content.len();
    let mut i: usize = 0;
    while i < n
        invariant
            i <= n == content.len(),
            cv == content_views(content@),
            s@ == join(content_texts(cv.take(i as int)), "\n"@),
            first == (content_texts(cv.take(i as int)).len() == 0),
        decreases n - i,
    {
        proof {
            assert(cv.take(i + 1).drop_last() =~= cv.take(i as int));
            assert(cv.take(i + 1).last() == cv[i as int]);
        }
        match &content[i] {
            ContentItem::InputText { text } | ContentItem::OutputText { text } => {
                proof {
                    lemma_join_push(content_texts(cv.take(i as int)), "\n"@, text@);
                }
                if !first {
                    s.append("\n");
                }
                s.append(text.as_str());
                first = false;
            },
            ContentItem::InputImage { .. } => {},
        }
        i = i + 1;
    }
    proof {
        assert(cv.take(n as int) =~= cv);
    }
    s
}

/// The Chat Completions content of a message.
pub fn chat_content_from_content_items(content: &Vec<ContentItem>) -> (c: ChatContent)
    ensures
        c@ == chat_content_spec(content_views(content@)),
{
    let ghost cv = content_views(content@);
    let n = content.len();
    let mut has_img = false;
    let mut i: usize = 0;
    while i < n
        invariant
            i <= n == content.len(),
            cv == content_views(content@),
            has_img == exists|j: int| 0 <= j < i && cv[j] is InputImage,
        decreases n - i,
    {
        assert(cv[i as int] == content@[i as int]@);
        match &content[i] {
            ContentItem::InputImage { .. } => {
                has_img = true;
            },
            _ => {},
        }
        proof {
            if cv[i as int] is InputImage {
                assert(exists|j: int| 0 <= j < i + 1 && cv[j] is InputImage);
            } else {
                assert forall|j: int| 0 <= j < i + 1 && cv[j] is InputImage implies 0 <= j < i by {}
            }
        }
        i = i + 1;
    }
    if !has_img {
        return ChatContent::Text(content_items_to_text(content));
    }
    let mut parts: Vec<ChatContentPart> = Vec::new();
    let mut i: usize = 0;
    while i < n
        invariant
            i <= n == content.len(),
            cv == content_views(content@),
            parts.len() == i,
            forall|j: int| 0 <= j < i ==> #[trigger] parts@[j]@ == content_part(cv[j]),
        decreases n - i,
    {
        let part = match &content[i] {
            ContentItem::InputText { text } | ContentItem::OutputText { text } => ChatContentPart::Text {
                text: text.clone(),
            },
            ContentItem::InputImage { image_url, detail } => ChatContentPart::ImageUrl {
                url: image_url.clone(),
                detail: match detail {
                    Some(d) => Some(image_detail_value(*d)),
                    None => None,
                },
            },
        };
        parts.push(part);
        i = i + 1;
    }
    let c = ChatContent::Parts(parts);
    proof {
        assert(parts@.map_values(|x: ChatContentPart| x@) =~= cv.map_values(|x: ContentItemView| content_part(x)));
    }
    c
}

/// The text of a tool output, empty when it has none.
pub open spec fn output_text(o: Option<Seq<char>>) -> Seq<char> {
    match o {
        Some(t) => t,
        None => Seq::empty(),
    }
}

/// The messages with the pending tool calls, if any, added as one assistant message.
pub open spec fn flush_spec(msgs: Seq<ChatMessageView>, pending: Seq<ChatToolCallView>) -> Seq<ChatMessageView> {
    if pending.len() == 0 {
        msgs
    } else {
        msgs.push(ChatMessageView::ToolCalls { tool_calls: pending })
    }
}

/// The messages so far and the tool calls not yet placed in a message.
pub open spec fn messages_fold(items: Seq<ResponseItemView>) -> (Seq<ChatMessageView>, Seq<ChatToolCallView>)
    decreases items.len(),
{
    if items.len() == 0 {
        (Seq::empty(), Seq::empty())
    } else {
        let (msgs, pending) = messages_fold(items.drop_last());
        match items.last() {
            ResponseItemView::Message { role, content, .. } => (
                flush_spec(msgs, pending).push(
                    ChatMessageView::Content { role, content: chat_content_spec(content) },
                ),
                Seq::empty(),
            ),
            ResponseItemView::FunctionCall { name, namespace, arguments, call_id, .. } => (
                msgs,
                pending.push(
                    ChatToolCallView { id: call_id, name: tool_name_spec(namespace, name), arguments },
                ),
            ),
            ResponseItemView::CustomToolCall { call_id, name, input } => (
                msgs,
                pending.push(ChatToolCallView { id: call_id, name, arguments: input }),
            ),
            ResponseItemView::FunctionCallOutput { call_id, output } => (
                flush_spec(msgs, pending).push(
                    ChatMessageView::ToolOutput { tool_call_id: call_id, content: output_text(output) },
                ),
                Seq::empty(),
            ),
            ResponseItemView::CustomToolCallOutput { call_id, output } => (
                flush_spec(msgs, pending).push(
                    ChatMessageView::ToolOutput { tool_call_id: call_id, content: output_text(output) },
                ),
                Seq::empty(),
            ),
            _ => (msgs, pending),
        }
    }
}

/// The Chat Completions messages of a conversation: each message and each
/// tool output becomes one message; consecutive tool calls are gathered into
/// one assistant message placed before the next message or output (or at the
/// end); other items are left out.
pub open spec fn chat_messages_spec(items: Seq<ResponseItemView>) -> Seq<ChatMessageView> {
    let (msgs, pending) = messages_fold(items);
    flush_spec(msgs, pending)
}

/// The mathematical forms of response items.
pub open spec fn item_views(s: Seq<ResponseItem>) -> Seq<ResponseItemView> {
    s.map_values(|x: ResponseItem| x@)
}

/// Adds the pending tool calls, if any, as one assistant message.
pub fn flush_tool_calls(messages: &mut Vec<ChatMessage>, pending: &mut Vec<ChatToolCall>)
    ensures
        message_views(final(messages)@) == flush_spec(message_views(old(messages)@), call_views(old(pending)@)),
        final(pending)@.len() == 0,
{
    if pending.len() == 0 {
        return;
    }
    let mut calls: Vec<ChatToolCall> = Vec::new();
    std::mem::swap(&mut calls, pending);
    let ghost before = message_views(messages@);
    messages.push(ChatMessage::ToolCalls { tool_calls: calls });
    proof {
        assert(message_views(messages@) =~= before.push(
            ChatMessageView::ToolCalls { tool_calls: call_views(old(pending)@) },
        ));
    }
}

/// The text of a tool output, empty when it has none.
pub fn tool_output_to_text(output: &FunctionCallOutputPayload) -> (s: String)
    ensures
        s@ == output_text(opt_chars(output.text)),
{
    match &output.text {
        Some(t) => t.clone(),
        None => String::new(),
    }
}

/// A tool call in Chat Completions shape.
pub fn chat_tool_call(call_id: &str, name: &str, arguments: &str) -> (c: ChatToolCall)
    ensures
        c@ == (ChatToolCallView { id: call_id@, name: name@, arguments: arguments@ }),
{
    ChatToolCall { id: call_id.to_owned(), name: name.to_owned(), arguments: arguments.to_owned() }
}

/// The Chat Completions messages of a conversation (see `chat_messages_spec`).
pub fn chat_messages_from_response_items(items: &Vec<ResponseItem>) -> (messages: Vec<ChatMessage>)
    ensures
        message_views(messages@) == chat_messages_spec(item_views(items@)),
{
    let ghost iv = item_views(items@);
    let mut messages: Vec<ChatMessage> = Vec::new();
    let mut pending: Vec<ChatToolCall> = Vec::new();
    let n = items.len();
    let mut i: usize = 0;
    while i < n
        invariant
            i <= n == items.len(),
            iv == item_views(items@),
            (message_views(messages@), call_views(pending@)) == messages_fold(iv.take(i as int)),
        decreases n - i,
    {
        proof {
            assert(iv.take(i + 1).drop_last() =~= iv.take(i as int));
            assert(iv.take(i + 1).last() == items@[i as int]@);
        }
        let ghost m0 = message_views(messages@);
        let ghost p0 = call_views(pending@);
        match &items[i] {
            ResponseItem::Message { role, content, .. } => {
                flush_tool_calls(&mut messages, &mut pending);
                let c = chat_content_from_content_items(content);
                let ghost m1 = message_views(messages@);
                messages.push(ChatMessage::Content { role: role.clone(), content: c });
                proof {
                    assert(message_views(messages@) =~= m1.push(
                        ChatMessageView::Content { role: role@, content: chat_content_spec(content_views(content@)) },
                    ));
                    assert(call_views(pending@) =~= Seq::<ChatToolCallView>::empty());
                }
            },
            ResponseItem::FunctionCall { name, namespace, arguments, call_id, .. } => {
                let tool_name = match namespace {
                    Some(ns) => chat_tool_name(Some(ns.as_str()), name.as_str()),
                    None => chat_tool_name(None, name.as_str()),
                };
                let call = chat_tool_call(call_id.as_str(), tool_name.as_str(), arguments.as_str());
                pending.push(call);
                proof {
                    assert(call_views(pending@) =~= p0.push(call@));
                }
            },
            ResponseItem::CustomToolCall { call_id, name, input } => {
                let call = chat_tool_call(call_id.as_str(), name.as_str(), input.as_str());
                pending.push(call);
                proof {
                    assert(call_views(pending@) =~= p0.push(call@));
                }
            },
            ResponseItem::FunctionCallOutput { call_id, output }
            | ResponseItem::CustomToolCallOutput { call_id, output } => {
                flush_tool_calls(&mut messages, &mut pending);
                let text = tool_output_to_text(output);
                let ghost m1 = message_views(messages@);
                messages.push(ChatMessage::ToolOutput { tool_call_id: call_id.clone(), content: text });
                proof {
                    assert(message_views(messages@) =~= m1.push(
                        ChatMessageView::ToolOutput { tool_call_id: call_id@, content: output_text(opt_chars(output.text)) },
                    ));
                    assert(call_views(pending@) =~= Seq::<ChatToolCallView>::empty());
                }
            },
            _ => {},
        }
        i = i + 1;
    }
    flush_tool_calls(&mut messages, &mut pending);
    proof {
        assert(iv.take(n as int) =~= iv);
    }
    messages
}

/// The Chat Completions tool that a function tool becomes under `name`.
pub open spec fn chat_tool_of(name: Seq<char>, t: ResponsesApiTool) -> ChatToolView {
    ChatToolView { name, description: t.description@, parameters: t.parameters@ }
}

/// The tools of a namespace, each named with the namespace in front.
pub open spec fn namespace_chat_tools(ns_name: Seq<char>, ts: Seq<ResponsesApiNamespaceTool>) -> Seq<ChatToolView> {
    ts.map_values(
        |x: ResponsesApiNamespaceTool|
            match x {
                ResponsesApiNamespaceTool::Function(t) => chat_tool_of(tool_name_spec(Some(ns_name), t.name@), t),
            },
    )
}

/// The Chat Completions tools one tool becomes: a function tool one, a
/// namespace one per member, any other kind of tool none.
pub open spec fn tools_of(t: ToolSpec) -> Seq<ChatToolView> {
    match t {
        ToolSpec::Function(f) => seq![chat_tool_of(f.name@, f)],
        ToolSpec::Namespace(ns) => namespace_chat_tools(ns.name@, ns.tools@),
        _ => Seq::empty(),
    }
}

/// The Chat Completions tools of a list of tools, in order.
pub open spec fn chat_tools_spec(ts: Seq<ToolSpec>) -> Seq<ChatToolView>
    decreases ts.len(),
{
    if ts.len() == 0 {
        Seq::empty()
    } else {
        chat_tools_spec(ts.drop_last()) + tools_of(ts.last())
    }
}

/// The mathematical forms of tools.
pub open spec fn tool_views(s: Seq<ChatTool>) -> Seq<ChatToolView> {
    s.map_values(|t: ChatTool| t@)
}

/// A function tool in Chat Completions shape, under `name`.
pub fn chat_function_tool(name: String, tool: &ResponsesApiTool) -> (t: ChatTool)
    ensures
        t@ == chat_tool_of(name@, *tool),
{
    ChatTool { name, description: tool.description.clone(), parameters: clone_json(&tool.parameters) }
}

/// The Chat Completions tools of `tools` (see `chat_tools_spec`).
pub fn create_tools_json_for_chat_completions(tools: &Vec<ToolSpec>) -> (out: Vec<ChatTool>)
    ensures
        tool_views(out@) == chat_tools_spec(tools@),
{
    let mut out: Vec<ChatTool> = Vec::new();
    let n = tools.len();
    let mut i: usize = 0;
    while i < n
        invariant
            i <= n == tools.len(),
            tool_views(out@) == chat_tools_spec(tools@.take(i as int)),
        decreases n - i,
    {
        proof {
            assert(tools@.take(i + 1).drop_last() =~= tools@.take(i as int));
            assert(tools@.take(i + 1).last() == tools@[i as int]);
        }
        let ghost before = tool_views(out@);
        match &tools[i] {
            ToolSpec::Function(tool) => {
                let t = chat_function_tool(tool.name.clone(), tool);
                out.push(t);
                proof {
                    assert(tool_views(out@) =~= before + seq![chat_tool_of(tool.name@, *tool)]);
                }
            },
            ToolSpec::Namespace(namespace) => {
                let m = namespace.tools.len();
                let mut j: usize = 0;
                while j < m
                    invariant
                        j <= m == namespace.tools.len(),
                        tool_views(out@) == before + namespace_chat_tools(
                            namespace.name@,
                            namespace.tools@.take(j as int),
                        ),
                    decreases m - j,
                {
                    match &namespace.tools[j] {
                        ResponsesApiNamespaceTool::Function(tool) => {
                            let name = chat_tool_name(Some(namespace.name.as_str()), tool.name.as_str());
                            let t = chat_function_tool(name, tool);
                            let ghost b2 = tool_views(out@);
                            out.push(t);
                            proof {
                                assert(namespace.tools@.take(j + 1) =~= namespace.tools@.take(j as int).push(namespace.tools@[j as int]));
                                assert(tool_views(out@) =~= b2.push(t@));
                                assert(namespace_chat_tools(namespace.name@, namespace.tools@.take(j + 1)) =~= namespace_chat_tools(namespace.name@, namespace.tools@.take(j as int)).push(t@));
                            }
                        },
                    }
                    j = j + 1;
                }
                proof {
                    assert(namespace.tools@.take(m as int) =~= namespace.tools@);
                }
            },
            _ => {
                assert(tool_views(out@) =~= before + Seq::<ChatToolView>::empty());
            },
        }
        i = i + 1;
    }
    proof {
        assert(tools@.take(n as int) =~= tools@);
    }
    out
}

/// What a request is built from.
#[derive(Debug, PartialEq)]
pub struct Prompt {
    pub base_instructions: String,
    /// The conversation, already in the form it is sent in.
    pub input: Vec<ResponseItem>,
    pub tools: Vec<ToolSpec>,
    pub parallel_tool_calls: bool,
}

/// A streaming Chat Completions request.
#[derive(Debug, PartialEq)]
pub struct ChatCompletionsRequest {
    pub model: String,
    pub messages: Vec<ChatMessage>,
    pub tools: Vec<ChatTool>,
    pub tool_choice: Option<String>,
    pub parallel_tool_calls: bool,
    pub stream: bool,
}

/// The system message that non-blank base instructions become.
pub open spec fn system_messages(base: Seq<char>) -> Seq<ChatMessageView> {
    if is_blank(base) {
        Seq::empty()
    } else {
        seq![ChatMessageView::Content { role: "system"@, content: ChatContentView::Text(base) }]
    }
}

/// The request for `prompt` to model `model`: the base instructions as a
/// system message unless they are blank, then the conversation; the tools;
/// `tool_choice` "auto" and parallel calls as the prompt asks, both only when
/// there are tools; streaming on.
pub fn build_chat_completions_request(prompt: &Prompt, model: &str) -> (r: ChatCompletionsRequest)
    ensures
        r.model@ == model@,
        message_views(r.messages@) == system_messages(prompt.base_instructions@) + chat_messages_spec(
            item_views(prompt.input@),
        ),
        tool_views(r.tools@) == chat_tools_spec(prompt.tools@),
        opt_chars(r.tool_choice) == if r.tools.len() > 0 {
            Some("auto"@)
        } else {
            None
        },
        r.parallel_tool_calls == (r.tools.len() > 0 && prompt.parallel_tool_calls),
        r.stream,
{
    let mut messages: Vec<ChatMessage> = Vec::new();
    if !str_is_blank(prompt.base_instructions.as_str()) {
        messages.push(
            ChatMessage::Content {
                role: "system".to_owned(),
                content: ChatContent::Text(prompt.base_instructions.clone()),
            },
        );
    }
    let ghost m0 = message_views(messages@);
    proof {
        assert(m0 =~= system_messages(prompt.base_instructions@));
    }
    let mut rest = chat_messages_from_response_items(&prompt.input);
    let ghost m1 = message_views(rest@);
    messages.append(&mut rest);
    proof {
        assert(message_views(messages@) =~= m0 + m1);
    }
    let tools = create_tools_json_for_chat_completions(&prompt.tools);
    let has_tools = tools.len() > 0;
    ChatCompletionsRequest {
        model: model.to_owned(),
        messages,
        tools,
        tool_choice: if has_tools {
            Some("auto".to_owned())
        } else {
            None
        },
        parallel_tool_calls: has_tools && prompt.parallel_tool_calls,
        stream: true,
    }
}

} // verus!
