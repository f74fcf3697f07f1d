//! Response items, content items, token usage and streaming events, with
//! their mathematical forms.

use vstd::prelude::*;

verus! {

/// The detail level requested for an input image.
#[derive(Debug, Clone, Copy, PartialEq, Eq)]
pub enum ImageDetail {
    Auto,
    Low,
    High,
    Original,
}

/// One piece of message content.
#[derive(Debug, Clone, PartialEq)]
pub enum ContentItem {
    InputText { text: String },
    InputImage { image_url: String, detail: Option<ImageDetail> },
    OutputText { text: String },
}

/// The mathematical form of a `ContentItem`.
pub enum ContentItemView {
    InputText { text: Seq<char> },
    InputImage { image_url: Seq<char>, detail: Option<ImageDetail> },
    OutputText { text: Seq<char> },
}

impl View for ContentItem {
    type V = ContentItemView;

    open spec fn view(&self) -> ContentItemView {
        match self {
            ContentItem::InputText { text } => ContentItemView::InputText { text: text@ },
            ContentItem::InputImage { image_url, detail } => ContentItemView::InputImage {
                image_url: image_url@,
                detail: *detail,
            },
            ContentItem::OutputText { text } => ContentItemView::OutputText { text: text@ },
        }
    }
}

/// The characters of an optional string.
pub open spec fn opt_chars(o: Option<String>) -> Option<Seq<char>> {
    match o {
        Some(s) => Some(s@),
        None => None,
    }
}

/// The output of a tool call, held as the text form of its body when it has one.
#[derive(Debug, Clone, PartialEq)]
pub struct FunctionCallOutputPayload {
    pub text: Option<String>,
}

impl FunctionCallOutputPayload {
    /// An output whose body is the text `text`.
    pub fn from_text(text: String) -> (p: FunctionCallOutputPayload)
        ensures
            opt_chars(p.text) == Some(text@),
    {
        FunctionCallOutputPayload { text: Some(text) }
    }
}

/// An item of a conversation as the Responses API shapes it.
#[derive(Debug, Clone, PartialEq)]
pub enum ResponseItem {
    Message { id: Option<String>, role: String, content: Vec<ContentItem> },
    FunctionCall {
        id: Option<String>,
        name: String,
        namespace: Option<String>,
        arguments: String,
        call_id: String,
    },
    CustomToolCall { call_id: String, name: String, input: String },
    FunctionCallOutput { call_id: String, output: FunctionCallOutputPayload },
    CustomToolCallOutput { call_id: String, output: FunctionCallOutputPayload },
    Reasoning,
    LocalShellCall,
    ToolSearchCall,
    ToolSearchOutput,
    WebSearchCall,
    ImageGenerationCall,
    Compaction,
    Other,
}

/// The mathematical form of a `ResponseItem`.
pub enum ResponseItemView {
    Message { id: Option<Seq<char>>, role: Seq<char>, content: Seq<ContentItemView> },
    FunctionCall {
        id: Option<Seq<char>>,
        name: Seq<char>,
        namespace: Option<Seq<char>>,
        arguments: Seq<char>,
        call_id: Seq<char>,
    },
    CustomToolCall { call_id: Seq<char>, name: Seq<char>, input: Seq<char> },
    FunctionCallOutput { call_id: Seq<char>, output: Option<Seq<char>> },
    CustomToolCallOutput { call_id: Seq<char>, output: Option<Seq<char>> },
    Reasoning,
    LocalShellCall,
    ToolSearchCall,
    ToolSearchOutput,
    WebSearchCall,
    ImageGenerationCall,
    Compaction,
    Other,
}

/// The mathematical forms of a sequence of content items.
pub open spec fn content_views(c: Seq<ContentItem>) -> Seq<ContentItemView> {
    c.map_values(|x: ContentItem| x@)
}

impl View for ResponseItem {
    type V = ResponseItemView;

    open spec fn view(&self) -> ResponseItemView {
        match self {
            ResponseItem::Message { id, role, content } => ResponseItemView::Message {
                id: opt_chars(*id),
                role: role@,
                content: content_views(content@),
            },
            ResponseItem::FunctionCall { id, name, namespace, arguments, call_id } =>
                ResponseItemView::FunctionCall {
                id: opt_chars(*id),
                name: name@,
                namespace: opt_chars(*namespace),
                arguments: arguments@,
                call_id: call_id@,
            },
            ResponseItem::CustomToolCall { call_id, name, input } =>
                ResponseItemView::CustomToolCall {
                call_id: call_id@,
                name: name@,
                input: input@,
            },
            ResponseItem::FunctionCallOutput { call_id, output } =>
                ResponseItemView::FunctionCallOutput {
                call_id: call_id@,
                output: opt_chars(output.text),
            },
            ResponseItem::CustomToolCallOutput { call_id, output } =>
                ResponseItemView::CustomToolCallOutput {
                call_id: call_id@,
                output: opt_chars(output.text),
            },
            ResponseItem::Reasoning => ResponseItemView::Reasoning,
            ResponseItem::LocalShellCall => ResponseItemView::LocalShellCall,
            ResponseItem::ToolSearchCall => ResponseItemView::ToolSearchCall,
            ResponseItem::ToolSearchOutput => ResponseItemView::ToolSearchOutput,
            ResponseItem::WebSearchCall => ResponseItemView::WebSearchCall,
            ResponseItem::ImageGenerationCall => ResponseItemView::ImageGenerationCall,
            ResponseItem::Compaction => ResponseItemView::Compaction,
            ResponseItem::Other => ResponseItemView::Other,
        }
    }
}

/// Token counts of one response.
#[derive(Debug, Clone, Copy, PartialEq, Eq)]
pub struct TokenUsage {
    pub input_tokens: i64,
    pub cached_input_tokens: i64,
    pub output_tokens: i64,
    pub reasoning_output_tokens: i64,
    pub total_tokens: i64,
}

/// An event of a streamed response.
#[derive(Debug, Clone, PartialEq)]
pub enum ResponseEvent {
    OutputTextDelta(String),
    ToolCallInputDelta { item_id: String, call_id: Option<String>, delta: String },
    OutputItemDone(ResponseItem),
    Completed { response_id: String, token_usage: Option<TokenUsage>, end_turn: Option<bool> },
}

/// The mathematical form of a `ResponseEvent`.
pub enum ResponseEventView {
    OutputTextDelta(Seq<char>),
    ToolCallInputDelta { item_id: Seq<char>, call_id: Option<Seq<char>>, delta: Seq<char> },
    OutputItemDone(ResponseItemView),
    Completed { response_id: Seq<char>, token_usage: Option<TokenUsage>, end_turn: Option<bool> },
}

impl View for ResponseEvent {
    type V = ResponseEventView;

    open spec fn view(&self) -> ResponseEventView {
        match self {
            ResponseEvent::OutputTextDelta(d) => ResponseEventView::OutputTextDelta(d@),
            ResponseEvent::ToolCallInputDelta { item_id, call_id, delta } =>
                ResponseEventView::ToolCallInputDelta {
                item_id: item_id@,
                call_id: opt_chars(*call_id),
                delta: delta@,
            },
            ResponseEvent::OutputItemDone(item) => ResponseEventView::OutputItemDone(item@),
            ResponseEvent::Completed { response_id, token_usage, end_turn } =>
                ResponseEventView::Completed {
                response_id: response_id@,
                token_usage: *token_usage,
                end_turn: *end_turn,
            },
        }
    }
}

/// The mathematical forms of a sequence of events.
pub open spec fn event_views(s: Seq<ResponseEvent>) -> Seq<ResponseEventView> {
    s.map_values(|e: ResponseEvent| e@)
}

} // verus!
