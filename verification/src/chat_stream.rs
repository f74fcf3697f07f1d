//! The state machine behind a streamed Chat Completions response: chunks in,
//! response events out.

use vstd::prelude::*;
use vstd::std_specs::cmp::OrdSpec;
use vstd::std_specs::iter::IteratorSpec;
use vstd::string::StringExecFns;
use crate::json::get_string_member;
use crate::json::json_view;
use crate::json::string_member;
use crate::json::Json;
use crate::json::JsonValue;
use crate::model::event_views;
use crate::model::ContentItem;
use crate::model::ContentItemView;
use crate::model::ResponseItem;
use crate::model::ResponseItemView;
use crate::model::opt_chars;
use crate::model::ResponseEvent;
use crate::model::ResponseEventView;
use crate::model::TokenUsage;
use crate::text::decimal;
use crate::text::join;
use crate::text::trim;
use crate::text::trimmed_equals;
use crate::text::push_decimal;
use std::collections::BTreeMap;

verus! {

/// One `chat.completion.chunk` object of the stream.
#[derive(Debug, PartialEq)]
pub struct ChatCompletionChunk {
    pub id: Option<String>,
    pub choices: Vec<ChatCompletionChoice>,
    pub usage: Option<ChatCompletionUsage>,
}

/// One choice of a chunk.
#[derive(Debug, PartialEq)]
pub struct ChatCompletionChoice {
    pub index: Option<u32>,
    pub delta: ChatCompletionDelta,
    pub finish_reason: Option<String>,
}

/// What a choice adds to the message.
#[derive(Debug, PartialEq)]
pub struct ChatCompletionDelta {
    pub content: Option<JsonValue>,
    pub tool_calls: Option<Vec<ChatCompletionToolCallDelta>>,
}

/// A piece of one tool call.
#[derive(Debug, PartialEq)]
pub struct ChatCompletionToolCallDelta {
    pub index: Option<u32>,
    pub id: Option<String>,
    pub function: Option<ChatCompletionFunctionDelta>,
}

/// A piece of the function of one tool call.
#[derive(Debug, PartialEq)]
pub struct ChatCompletionFunctionDelta {
    pub name: Option<String>,
    pub arguments: Option<String>,
}

/// The token counts a chunk reports.
#[derive(Debug, Clone, Copy, PartialEq, Eq)]
pub struct ChatCompletionUsage {
    pub prompt_tokens: Option<i64>,
    pub completion_tokens: Option<i64>,
    pub total_tokens: Option<i64>,
    pub prompt_tokens_details: Option<ChatPromptTokensDetails>,
    pub completion_tokens_details: Option<ChatCompletionTokensDetails>,
}

/// Details of the prompt tokens.
#[derive(Debug, Clone, Copy, PartialEq, Eq)]
pub struct ChatPromptTokensDetails {
    pub cached_tokens: Option<i64>,
}

/// Details of the completion tokens.
#[derive(Debug, Clone, Copy, PartialEq, Eq)]
pub struct ChatCompletionTokensDetails {
    pub reasoning_tokens: Option<i64>,
}

/// The value of an optional count, zero when absent.
pub open spec fn count_or_zero(o: Option<i64>) -> i64 {
    match o {
        Some(v) => v,
        None => 0,
    }
}

/// `a + b`, held at the bounds of `i64` (`i64::saturating_add`).
pub open spec fn saturating_add_i64(a: i64, b: i64) -> i64 {
    if a + b > i64::MAX {
        i64::MAX
    } else if a + b < i64::MIN {
        i64::MIN
    } else {
        (a + b) as i64
    }
}

/// The token usage that a chunk's usage report stands for.
pub open spec fn token_usage_of(u: ChatCompletionUsage) -> TokenUsage {
    let input = count_or_zero(u.prompt_tokens);
    let output = count_or_zero(u.completion_tokens);
    TokenUsage {
        input_tokens: input,
        cached_input_tokens: match u.prompt_tokens_details {
            Some(d) => count_or_zero(d.cached_tokens),
            None => 0,
        },
        output_tokens: output,
        reasoning_output_tokens: match u.completion_tokens_details {
            Some(d) => count_or_zero(d.reasoning_tokens),
            None => 0,
        },
        total_tokens: match u.total_tokens {
            Some(t) => t,
            None => saturating_add_i64(input, output),
        },
    }
}

/// `a + b`, held at the bounds of `i64`.
pub fn saturating_add(a: i64, b: i64) -> (r: i64)
    ensures
        r == saturating_add_i64(a, b),
{
    match a.checked_add(b) {
        Some(s) => s,
        None => {
            if b > 0 {
                i64::MAX
            } else {
                i64::MIN
            }
        },
    }
}

/// The token usage of a usage report: absent counts are zero, and an absent
/// total is the sum of prompt and completion tokens.
pub fn token_usage_from(u: ChatCompletionUsage) -> (t: TokenUsage)
    ensures
        t == token_usage_of(u),
{
    let input_tokens = match u.prompt_tokens {
        Some(v) => v,
        None => 0,
    };
    let output_tokens = match u.completion_tokens {
        Some(v) => v,
        None => 0,
    };
    let cached_input_tokens = match u.prompt_tokens_details {
        Some(d) => match d.cached_tokens {
            Some(v) => v,
            None => 0,
        },
        None => 0,
    };
    let reasoning_output_tokens = match u.completion_tokens_details {
        Some(d) => match d.reasoning_tokens {
            Some(v) => v,
            None => 0,
        },
        None => 0,
    };
    let total_tokens = match u.total_tokens {
        Some(v) => v,
        None => saturating_add(input_tokens, output_tokens),
    };
    TokenUsage {
        input_tokens,
        cached_input_tokens,
        output_tokens,
        reasoning_output_tokens,
        total_tokens,
    }
}

impl From<ChatCompletionUsage> for TokenUsage {
    /// The token usage of a usage report (see `token_usage_from`).
    fn from(u: ChatCompletionUsage) -> (t: TokenUsage) {
        token_usage_from(u)
    }
}

impl vstd::std_specs::convert::FromSpecImpl<ChatCompletionUsage> for TokenUsage {
    open spec fn obeys_from_spec() -> bool {
        true
    }

    open spec fn from_spec(u: ChatCompletionUsage) -> TokenUsage {
        token_usage_of(u)
    }
}

/// The texts of the parts that carry a string `text` member, in order.
pub open spec fn part_texts(parts: Seq<Json>) -> Seq<Seq<char>>
    decreases parts.len(),
{
    if parts.len() == 0 {
        Seq::empty()
    } else {
        let rest = part_texts(parts.drop_last());
        match string_member(parts.last(), "text"@) {
            Some(t) => rest.push(t),
            None => rest,
        }
    }
}

/// The text a delta's content stands for: a string as it is; an array as the
/// concatenation of its parts' `text` members, when that is not empty;
/// anything else stands for no text.
pub open spec fn delta_text(v: Json) -> Option<Seq<char>> {
    match v {
        Json::Str(t) => Some(t),
        Json::Array(parts) => {
            let t = join(part_texts(parts), Seq::empty());
            if t.len() > 0 {
                Some(t)
            } else {
                None
            }
        },
        _ => None,
    }
}

proof fn lemma_join_empty_push(parts: Seq<Seq<char>>, t: Seq<char>)
    ensures
        join(parts.push(t), Seq::empty()) == join(parts, Seq::empty()) + t,
{
    let p = parts.push(t);
    assert(p.drop_last() =~= parts);
    if parts.len() == 0 {
        assert(join(p, Seq::empty()) == t);
        assert(join(parts, Seq::empty()) + t =~= t);
    } else {
        assert(join(parts, Seq::empty()) + Seq::<char>::empty() =~= join(parts, Seq::empty()));
    }
}

/// The text of a delta's content, if it carries any.
pub fn delta_content_to_string(value: &JsonValue) -> (r: Option<String>)
    ensures
        opt_chars(r) == delta_text(value@),
{
    match value {
        JsonValue::String(text) => Some(text.clone()),
        JsonValue::Array(parts) => {
            let ghost pv = match value@ {
                Json::Array(a) => a,
                _ => Seq::empty(),
            };
            let mut text = String::new();
            let n = parts.len();
            let mut i: usize = 0;
            while i < n
                invariant
                    i <= n == parts.len() == pv.len(),
                    forall|j: int| 0 <= j < n ==> #[trigger] pv[j] == json_view(parts@[j]),
                    text@ == join(part_texts(pv.take(i as int)), Seq::empty()),
                decreases n - i,
            {
                let part = get_string_member(&parts[i], "text");
                proof {
                    assert(pv.take(i + 1).drop_last() =~= pv.take(i as int));
                    assert(pv.take(i + 1).last() == pv[i as int]);
                }
                match part {
                    Some(t) => {
                        proof {
                            lemma_join_empty_push(part_texts(pv.take(i as int)), t@);
                        }
                        text.append(t.as_str());
                    },
                    None => {},
                }
                i = i + 1;
            }
            proof {
                assert(pv.take(n as int) =~= pv);
            }
            if text.as_str().is_empty() {
                None
            } else {
                Some(text)
            }
        },
        _ => None,
    }
}

/// A tool call as far as the stream has told it.
#[derive(Debug, PartialEq)]
pub struct PartialToolCall {
    pub id: Option<String>,
    pub name: Option<String>,
    pub arguments: String,
}

/// The mathematical form of a `PartialToolCall`.
pub struct PartialToolCallView {
    pub id: Option<Seq<char>>,
    pub name: Option<Seq<char>>,
    pub arguments: Seq<char>,
}

impl View for PartialToolCall {
    type V = PartialToolCallView;

    open spec fn view(&self) -> PartialToolCallView {
        PartialToolCallView {
            id: opt_chars(self.id),
            name: opt_chars(self.name),
            arguments: self.arguments@,
        }
    }
}

/// What has been received of a streamed response so far.
#[derive(Debug)]
pub struct ChatCompletionsState {
    pub response_id: Option<String>,
    pub text: String,
    pub tool_calls: BTreeMap<u32, PartialToolCall>,
    pub usage: Option<TokenUsage>,
    pub finished: bool,
}

/// The mathematical form of a `ChatCompletionsState`.
pub struct StateView {
    pub response_id: Option<Seq<char>>,
    pub text: Seq<char>,
    pub tool_calls: Map<u32, PartialToolCallView>,
    pub usage: Option<TokenUsage>,
    pub finished: bool,
}

impl View for ChatCompletionsState {
    type V = StateView;

    open spec fn view(&self) -> StateView {
        StateView {
            response_id: opt_chars(self.response_id),
            text: self.text@,
            tool_calls: self.tool_calls@.map_values(|p: PartialToolCall| p@),
            usage: self.usage,
            finished: self.finished,
        }
    }
}

/// The state before any chunk.
pub open spec fn initial_state() -> StateView {
    StateView {
        response_id: None,
        text: Seq::empty(),
        tool_calls: Map::empty(),
        usage: None,
        finished: false,
    }
}

/// The name given to tool call `index` when the stream names none: `tool_call_{index}`.
pub open spec fn tool_call_label(index: u32) -> Seq<char> {
    "tool_call_"@ + decimal(index as nat)
}

/// A tool call of which nothing is known yet.
pub open spec fn empty_partial() -> PartialToolCallView {
    PartialToolCallView { id: None, name: None, arguments: Seq::empty() }
}

/// The item id of the argument events of a tool call: its id, or its label.
pub open spec fn item_id_of(p: PartialToolCallView, index: u32) -> Seq<char> {
    match p.id {
        Some(id) => id,
        None => tool_call_label(index),
    }
}

/// The slot a tool-call delta addresses (index 0 when it gives none).
pub open spec fn delta_slot(d: ChatCompletionToolCallDelta) -> u32 {
    match d.index {
        Some(i) => i,
        None => 0,
    }
}

/// Merges one tool-call delta into the state: the id and the name are
/// replaced when given, non-empty arguments are appended and announced.
pub open spec fn step_tool_call(st: StateView, d: ChatCompletionToolCallDelta) -> (StateView, Seq<ResponseEventView>) {
    let index = delta_slot(d);
    let p0 = if st.tool_calls.contains_key(index) {
        st.tool_calls[index]
    } else {
        empty_partial()
    };
    let p1 = match d.id {
        Some(id) => PartialToolCallView { id: Some(id@), name: p0.name, arguments: p0.arguments },
        None => p0,
    };
    let (p2, evs) = match d.function {
        None => (p1, Seq::<ResponseEventView>::empty()),
        Some(f) => {
            let q = match f.name {
                Some(name) => PartialToolCallView { id: p1.id, name: Some(name@), arguments: p1.arguments },
                None => p1,
            };
            match f.arguments {
                Some(a) => if a@.len() > 0 {
                    let r = PartialToolCallView { id: q.id, name: q.name, arguments: q.arguments + a@ };
                    (r, seq![ResponseEventView::ToolCallInputDelta {
                        item_id: item_id_of(r, index),
                        call_id: r.id,
                        delta: a@,
                    }])
                } else {
                    (q, Seq::empty())
                },
                None => (q, Seq::empty()),
            }
        },
    };
    (
        StateView {
            response_id: st.response_id,
            text: st.text,
            tool_calls: st.tool_calls.insert(index, p2),
            usage: st.usage,
            finished: st.finished,
        },
        evs,
    )
}

/// Merges tool-call deltas in order.
pub open spec fn step_tool_calls(st: StateView, ds: Seq<ChatCompletionToolCallDelta>) -> (StateView, Seq<ResponseEventView>)
    decreases ds.len(),
{
    if ds.len() == 0 {
        (st, Seq::empty())
    } else {
        let (s1, e1) = step_tool_calls(st, ds.drop_last());
        let (s2, e2) = step_tool_call(s1, ds.last());
        (s2, e1 + e2)
    }
}

/// Whether a choice belongs to the first (and only followed) completion.
pub open spec fn is_followed_choice(c: ChatCompletionChoice) -> bool {
    c.index is None || c.index == Some(0u32)
}

/// The non-empty text a choice adds, if any.
pub open spec fn choice_text(c: ChatCompletionChoice) -> Option<Seq<char>> {
    match c.delta.content {
        Some(v) => match delta_text(v@) {
            Some(t) => if t.len() > 0 {
                Some(t)
            } else {
                None
            },
            None => None,
        },
        None => None,
    }
}

/// The tool-call deltas of a choice.
pub open spec fn choice_tool_deltas(c: ChatCompletionChoice) -> Seq<ChatCompletionToolCallDelta> {
    match c.delta.tool_calls {
        Some(v) => v@,
        None => Seq::empty(),
    }
}

/// Applies one choice: other completions than the first are ignored; text is
/// appended and announced, tool calls merged, and a finish reason ends the
/// response.
pub open spec fn step_choice(st: StateView, c: ChatCompletionChoice) -> (StateView, Seq<ResponseEventView>) {
    if !is_followed_choice(c) {
        (st, Seq::empty())
    } else {
        let (s1, e1) = match choice_text(c) {
            Some(t) => (
                StateView {
                    response_id: st.response_id,
                    text: st.text + t,
                    tool_calls: st.tool_calls,
                    usage: st.usage,
                    finished: st.finished,
                },
                seq![ResponseEventView::OutputTextDelta(t)],
            ),
            None => (st, Seq::empty()),
        };
        let (s2, e2) = step_tool_calls(s1, choice_tool_deltas(c));
        let s3 = if c.finish_reason is Some {
            StateView {
                response_id: s2.response_id,
                text: s2.text,
                tool_calls: s2.tool_calls,
                usage: s2.usage,
                finished: true,
            }
        } else {
            s2
        };
        (s3, e1 + e2)
    }
}

/// Applies choices in order.
pub open spec fn step_choices(st: StateView, cs: Seq<ChatCompletionChoice>) -> (StateView, Seq<ResponseEventView>)
    decreases cs.len(),
{
    if cs.len() == 0 {
        (st, Seq::empty())
    } else {
        let (s1, e1) = step_choices(st, cs.drop_last());
        let (s2, e2) = step_choice(s1, cs.last());
        (s2, e1 + e2)
    }
}

/// The state after a chunk's id and usage are recorded.
pub open spec fn record_chunk_header(st: StateView, chunk: ChatCompletionChunk) -> StateView {
    StateView {
        response_id: match chunk.id {
            Some(id) => Some(id@),
            None => st.response_id,
        },
        text: st.text,
        tool_calls: st.tool_calls,
        usage: match chunk.usage {
            Some(u) => Some(token_usage_of(u)),
            None => st.usage,
        },
        finished: st.finished,
    }
}

/// The state after a chunk, and the events it gives.
pub open spec fn apply_chunk_spec(st: StateView, chunk: ChatCompletionChunk) -> (StateView, Seq<ResponseEventView>) {
    step_choices(record_chunk_header(st, chunk), chunk.choices@)
}

/// Whether `s` is strictly increasing.
pub open spec fn strictly_increasing(s: Seq<u32>) -> bool {
    forall|i: int, j: int| 0 <= i < j < s.len() ==> s[i] < s[j]
}

/// Whether `s` lists exactly the members of `keys`, in increasing order.
pub open spec fn is_key_order(s: Seq<u32>, keys: Set<u32>) -> bool {
    &&& strictly_increasing(s)
    &&& forall|k: u32| keys.contains(k) <==> s.contains(k)
}

/// The members of `keys` in increasing order.
pub open spec fn key_order(keys: Set<u32>) -> Seq<u32> {
    choose|s: Seq<u32>| is_key_order(s, keys)
}

/// Two increasing listings of the same keys are the same listing.
pub proof fn lemma_key_order_unique(s1: Seq<u32>, s2: Seq<u32>, keys: Set<u32>)
    requires
        is_key_order(s1, keys),
        is_key_order(s2, keys),
    ensures
        s1 == s2,
    decreases s1.len(),
{
    if s1.len() == 0 {
        if s2.len() > 0 {
            assert(s2.contains(s2[0]));
            assert(keys.contains(s2[0]));
        }
        assert(s1 =~= s2);
    } else {
        assert(s1.contains(s1[0]));
        assert(s2.contains(s1[0]));
        let k = choose|k: int| 0 <= k < s2.len() && s2[k] == s1[0];
        assert(s2.contains(s2[0]));
        assert(s1.contains(s2[0]));
        let m = choose|m: int| 0 <= m < s1.len() && s1[m] == s2[0];
        assert(s1[0] == s2[0]) by {
            if k > 0 {
                assert(s2[0] < s2[k]);
                if m > 0 {
                    assert(s1[0] < s1[m]);
                }
            }
        }
        let t1 = s1.drop_first();
        let t2 = s2.drop_first();
        let rest = keys.remove(s1[0]);
        assert forall|x: u32| rest.contains(x) <==> t1.contains(x) by {
            if t1.contains(x) {
                let i = choose|i: int| 0 <= i < t1.len() && t1[i] == x;
                assert(s1[i + 1] == x);
                assert(s1.contains(x));
                assert(s1[0] < s1[i + 1]);
            }
            if rest.contains(x) {
                assert(s1.contains(x));
                let i = choose|i: int| 0 <= i < s1.len() && s1[i] == x;
                assert(i != 0);
                assert(t1[i - 1] == x);
            }
        }
        assert forall|x: u32| rest.contains(x) <==> t2.contains(x) by {
            if t2.contains(x) {
                let i = choose|i: int| 0 <= i < t2.len() && t2[i] == x;
                assert(s2[i + 1] == x);
                assert(s2.contains(x));
                assert(s2[0] < s2[i + 1]);
            }
            if rest.contains(x) {
                assert(s2.contains(x));
                let i = choose|i: int| 0 <= i < s2.len() && s2[i] == x;
                assert(i != 0);
                assert(t2[i - 1] == x);
            }
        }
        lemma_key_order_unique(t1, t2, rest);
        assert(s1 =~= s2) by {
            assert forall|i: int| 0 <= i < s1.len() implies s1[i] == s2[i] by {
                if i > 0 {
                    assert(t1[i - 1] == t2[i - 1]);
                }
            }
        }
    }
}

/// The item a finished tool call becomes: unnamed calls and calls without id
/// take the label of their index.
pub open spec fn tool_call_item(index: u32, p: PartialToolCallView) -> ResponseItemView {
    ResponseItemView::FunctionCall {
        id: None,
        name: match p.name {
            Some(n) => n,
            None => tool_call_label(index),
        },
        namespace: None,
        arguments: p.arguments,
        call_id: match p.id {
            Some(i) => i,
            None => tool_call_label(index),
        },
    }
}

/// The assistant message holding `text`.
pub open spec fn assistant_message(text: Seq<char>) -> ResponseItemView {
    ResponseItemView::Message {
        id: None,
        role: "assistant"@,
        content: seq![ContentItemView::OutputText { text: text }],
    }
}

/// The events that close a response: the accumulated text as one assistant
/// message (when there is text), each tool call in increasing index order,
/// and the completion, which ends the turn exactly when there was no tool call.
pub open spec fn terminal_events_spec(st: StateView) -> Seq<ResponseEventView> {
    let text_events = if st.text.len() > 0 {
        seq![ResponseEventView::OutputItemDone(assistant_message(st.text))]
    } else {
        Seq::empty()
    };
    let call_events = key_order(st.tool_calls.dom()).map_values(
        |k: u32| ResponseEventView::OutputItemDone(tool_call_item(k, st.tool_calls[k])),
    );
    text_events + call_events + seq![
        ResponseEventView::Completed {
            response_id: match st.response_id {
                Some(r) => r,
                None => Seq::empty(),
            },
            token_usage: st.usage,
            end_turn: Some(st.tool_calls.is_empty()),
        },
    ]
}

/// The state once the text and the tool calls are handed out.
pub open spec fn drained(st: StateView) -> StateView {
    StateView {
        response_id: st.response_id,
        text: Seq::empty(),
        tool_calls: Map::empty(),
        usage: st.usage,
        finished: st.finished,
    }
}

/// The keys an iterator over a map yields come in increasing order and are
/// exactly the map's keys.
proof fn lemma_iter_key_order<'a>(
    map: &'a BTreeMap<u32, PartialToolCall>,
    iter: std::collections::btree_map::Iter<'a, u32, PartialToolCall>,
)
    requires
        iter == map.iter(),
        vstd::std_specs::btree::increasing_seq(
            iter.remaining().map_values(|kv: (&u32, &PartialToolCall)| *kv.0),
        ),
    ensures
        is_key_order(
            iter.remaining().map_values(|e: (&u32, &PartialToolCall)| *e.0),
            map@.dom(),
        ),
{
    let m = map@;
    let r = iter.remaining();
    let ks = r.map_values(|e: (&u32, &PartialToolCall)| *e.0);
    assert(vstd::laws_cmp::obeys_cmp::<u32>());
    let ks2 = r.map_values(|kv: (&u32, &PartialToolCall)| *kv.0);
    assert(ks =~= ks2);
    assert forall|i: int, j: int| 0 <= i < j < ks.len() implies ks[i] < ks[j] by {
        assert(ks[i].cmp_spec(&ks[j]) is Less);
    }
    assert forall|k: u32| m.dom().contains(k) <==> ks.contains(k) by {
        if m.dom().contains(k) {
            assert(r.contains((&k, &m[k])));
            let i = choose|i: int| 0 <= i < r.len() && r[i] == (&k, &m[k]);
            assert(ks[i] == k);
        }
        if ks.contains(k) {
            let i = choose|i: int| 0 <= i < ks.len() && ks[i] == k;
            assert(m.contains_key(*r[i].0));
        }
    }
}

/// A copy of an optional string.
pub fn clone_opt_string(o: &Option<String>) -> (r: Option<String>)
    ensures
        opt_chars(r) == opt_chars(*o),
{
    match o {
        Some(s) => Some(s.clone()),
        None => None,
    }
}

/// The label `tool_call_{index}`.
pub fn tool_call_label_string(index: u32) -> (s: String)
    ensures
        s@ == tool_call_label(index),
{
    let mut s = "tool_call_".to_owned();
    push_decimal(&mut s, index);
    s
}

impl Default for ChatCompletionsState {
    /// The state before any chunk.
    fn default() -> (s: ChatCompletionsState)
        ensures
            s@ == initial_state(),
    {
        ChatCompletionsState::new()
    }
}

impl ChatCompletionsState {
    /// The state before any chunk.
    pub fn new() -> (s: ChatCompletionsState)
        ensures
            s@ == initial_state(),
    {
        let s = ChatCompletionsState {
            response_id: None,
            text: String::new(),
            tool_calls: BTreeMap::new(),
            usage: None,
            finished: false,
        };
        assert(s@.tool_calls =~= Map::empty());
        s
    }

    fn apply_tool_delta(&mut self, d: &ChatCompletionToolCallDelta, events: &mut Vec<ResponseEvent>)
        ensures
            ({
                let (s, e) = step_tool_call(old(self)@, *d);
                final(self)@ == s && event_views(final(events)@) == event_views(old(events)@) + e
            }),
    {
        let index: u32 = match d.index {
            Some(i) => i,
            None => 0,
        };
        let ghost m0 = self.tool_calls@;
        let mut pending = match self.tool_calls.remove(&index) {
            Some(p) => p,
            None => PartialToolCall { id: None, name: None, arguments: String::new() },
        };
        let ghost old_events = events@;
        match &d.id {
            Some(id) => {
                pending.id = Some(id.clone());
            },
            None => {},
        }
        match &d.function {
            Some(f) => {
                match &f.name {
                    Some(name) => {
                        pending.name = Some(name.clone());
                    },
                    None => {},
                }
                match &f.arguments {
                    Some(a) => {
                        if !a.as_str().is_empty() {
                            pending.arguments.append(a.as_str());
                            let item_id = match &pending.id {
                                Some(id) => id.clone(),
                                None => tool_call_label_string(index),
                            };
                            let call_id = clone_opt_string(&pending.id);
                            events.push(
                                ResponseEvent::ToolCallInputDelta { item_id, call_id, delta: a.clone() },
                            );
                        }
                    },
                    None => {},
                }
            },
            None => {},
        }
        let ghost p = pending@;
        self.tool_calls.insert(index, pending);
        proof {
            assert(self.tool_calls@ == m0.remove(index).insert(index, self.tool_calls@[index]));
            assert(self@.tool_calls =~= old(self)@.tool_calls.insert(index, p));
            assert(event_views(events@) =~= event_views(old_events) + step_tool_call(old(self)@, *d).1);
        }
    }

    fn apply_choice(&mut self, c: &ChatCompletionChoice, events: &mut Vec<ResponseEvent>)
        ensures
            ({
                let (s, e) = step_choice(old(self)@, *c);
                final(self)@ == s && event_views(final(events)@) == event_views(old(events)@) + e
            }),
    {
        let followed = match c.index {
            None => true,
            Some(i) => i == 0,
        };
        if !followed {
            assert(event_views(events@) =~= event_views(events@) + Seq::<ResponseEventView>::empty());
            return;
        }
        let ghost ev0 = events@;
        match &c.delta.content {
            Some(v) => {
                match delta_content_to_string(v) {
                    Some(t) => {
                        if !t.as_str().is_empty() {
                            self.text.append(t.as_str());
                            events.push(ResponseEvent::OutputTextDelta(t));
                        }
                    },
                    None => {},
                }
            },
            None => {},
        }
        let ghost s1 = self@;
        let ghost ev1 = events@;
        proof {
            let (a, b) = match choice_text(*c) {
                Some(t) => (
                    StateView {
                        response_id: old(self)@.response_id,
                        text: old(self)@.text + t,
                        tool_calls: old(self)@.tool_calls,
                        usage: old(self)@.usage,
                        finished: old(self)@.finished,
                    },
                    seq![ResponseEventView::OutputTextDelta(t)],
                ),
                None => (old(self)@, Seq::empty()),
            };
            assert(s1 == a);
            assert(event_views(ev1) =~= event_views(ev0) + b);
        }
        match &c.delta.tool_calls {
            Some(ds) => {
                let n = ds.len();
                let mut i: usize = 0;
                while i < n
                    invariant
                        i <= n == ds.len(),
                        ({
                            let (s, e) = step_tool_calls(s1, ds@.take(i as int));
                            self@ == s && event_views(events@) == event_views(ev1) + e
                        }),
                    decreases n - i,
                {
                    proof {
                        assert(ds@.take(i + 1).drop_last() =~= ds@.take(i as int));
                        assert(ds@.take(i + 1).last() == ds@[i as int]);
                    }
                    self.apply_tool_delta(&ds[i], events);
                    proof {
                        let (sa, ea) = step_tool_calls(s1, ds@.take(i as int));
                        let (sb, eb) = step_tool_call(sa, ds@[i as int]);
                        assert(event_views(events@) =~= event_views(ev1) + (ea + eb));
                    }
                    i = i + 1;
                }
                proof {
                    assert(ds@.take(n as int) =~= ds@);
                }
            },
            None => {
                assert(event_views(events@) =~= event_views(ev1) + Seq::<ResponseEventView>::empty());
            },
        }
        if c.finish_reason.is_some() {
            self.finished = true;
        }
        proof {
            let (a, b) = step_tool_calls(s1, choice_tool_deltas(*c));
            assert(event_views(events@) =~= event_views(ev0) + (event_views(ev1).skip(ev0.len() as int) + b));
        }
    }

    /// Hands out the closing events (see `terminal_events_spec`) and empties
    /// the text and the tool calls.
    pub fn terminal_events(&mut self) -> (events: Vec<ResponseEvent>)
        ensures
            event_views(events@) == terminal_events_spec(old(self)@),
            final(self)@ == drained(old(self)@),
    {
        let ghost st = self@;
        let mut events: Vec<ResponseEvent> = Vec::new();
        if !self.text.as_str().is_empty() {
            let mut text = String::new();
            std::mem::swap(&mut text, &mut self.text);
            let item = ResponseItem::Message {
                id: None,
                role: "assistant".to_owned(),
                content: vec![ContentItem::OutputText { text }],
            };
            proof {
                assert(item@->Message_content =~= seq![ContentItemView::OutputText { text: st.text }]);
            }
            events.push(ResponseEvent::OutputItemDone(item));
        }
        let ghost text_events = event_views(events@);
        proof {
            if st.text.len() > 0 {
                assert(text_events =~= seq![ResponseEventView::OutputItemDone(assistant_message(st.text))]);
            } else {
                assert(text_events =~= Seq::<ResponseEventView>::empty());
            }
        }
        let has_tool_calls = !self.tool_calls.is_empty();
        let mut tool_calls: BTreeMap<u32, PartialToolCall> = BTreeMap::new();
        std::mem::swap(&mut tool_calls, &mut self.tool_calls);
        let ghost m = tool_calls@;
        assert(m.map_values(|p: PartialToolCall| p@) == st.tool_calls);
        let ghost keys: Seq<u32> = Seq::empty();
        proof {
            assert(vstd::laws_cmp::obeys_cmp::<u32>());
            assert(vstd::std_specs::btree::key_obeys_cmp_spec::<u32>());
        }
        let iter = tool_calls.iter();
        proof {
            lemma_iter_key_order(&tool_calls, iter);
        }
        for entry in it: iter
            invariant
                m == tool_calls@,
                is_key_order(it.seq().map_values(|e: (&u32, &PartialToolCall)| *e.0), m.dom()),
                it.index() == it.seq().len() ==> is_key_order(keys, m.dom()),
                st.tool_calls == m.map_values(|p: PartialToolCall| p@),
                keys == it.seq().take(it.index()).map_values(|e: (&u32, &PartialToolCall)| *e.0),
                event_views(events@) == text_events + keys.map_values(
                    |k: u32| ResponseEventView::OutputItemDone(tool_call_item(k, st.tool_calls[k])),
                ),
                forall|i: int| 0 <= i < it.seq().len() ==> m.contains_key(*it.seq()[i].0) && m[*it.seq()[i].0] == *it.seq()[i].1,
        {
            let (index, call) = entry;
            let name = match &call.name {
                Some(n) => n.clone(),
                None => tool_call_label_string(*index),
            };
            let call_id = match &call.id {
                Some(i) => i.clone(),
                None => tool_call_label_string(*index),
            };
            let ghost before = event_views(events@);
            events.push(
                ResponseEvent::OutputItemDone(
                    ResponseItem::FunctionCall {
                        id: None,
                        name,
                        namespace: None,
                        arguments: call.arguments.clone(),
                        call_id,
                    },
                ),
            );
            proof {
                keys = keys.push(*index);
                assert(it.seq().take(it.index() + 1) =~= it.seq().take(it.index()).push(entry));
                if it.index() + 1 == it.seq().len() {
                    assert(it.seq().take(it.index() + 1) =~= it.seq());
                    assert(keys =~= it.seq().map_values(|e: (&u32, &PartialToolCall)| *e.0));
                }
                assert(event_views(events@) =~= before.push(
                    ResponseEventView::OutputItemDone(tool_call_item(*index, st.tool_calls[*index])),
                ));
            }
        }
        events.push(
            ResponseEvent::Completed {
                response_id: match &self.response_id {
                    Some(r) => r.clone(),
                    None => String::new(),
                },
                token_usage: self.usage,
                end_turn: Some(!has_tool_calls),
            },
        );
        proof {
            assert(self@.tool_calls =~= Map::empty());
            assert(self@.text =~= Seq::<char>::empty());
            lemma_key_order_unique(keys, key_order(m.dom()), m.dom());
            assert(st.tool_calls.dom() =~= m.dom());
        }
        events
    }

    /// Applies one chunk: records its id and usage, then each choice in order.
    /// Returns the events of the chunk: text deltas and tool-call argument
    /// deltas, in the order the chunk holds them.
    pub fn apply_chunk(&mut self, chunk: ChatCompletionChunk) -> (events: Vec<ResponseEvent>)
        ensures
            ({
                let (s, e) = apply_chunk_spec(old(self)@, chunk);
                final(self)@ == s && event_views(events@) == e
            }),
    {
        let ChatCompletionChunk { id, choices, usage } = chunk;
        match id {
            Some(id) => {
                self.response_id = Some(id);
            },
            None => {},
        }
        match usage {
            Some(u) => {
                self.usage = Some(TokenUsage::from(u));
            },
            None => {},
        }
        let ghost s0 = self@;
        assert(s0 == record_chunk_header(old(self)@, chunk));
        let mut events: Vec<ResponseEvent> = Vec::new();
        let n = choices.len();
        let mut i: usize = 0;
        while i < n
            invariant
                i <= n == choices.len(),
                ({
                    let (s, e) = step_choices(s0, choices@.take(i as int));
                    self@ == s && event_views(events@) == e
                }),
            decreases n - i,
        {
            proof {
                assert(choices@.take(i + 1).drop_last() =~= choices@.take(i as int));
                assert(choices@.take(i + 1).last() == choices@[i as int]);
            }
            self.apply_choice(&choices[i], &mut events);
            i = i + 1;
        }
        proof {
            assert(choices@.take(n as int) =~= choices@);
        }
        events
    }
}

/// An error a stream ends with.
#[derive(Debug, Clone, PartialEq)]
pub enum ApiError {
    Stream(String),
}

/// What the reader of the event stream observed next.
#[derive(Debug, PartialEq)]
pub enum SseInput {
    /// An event with this data; `chunk` is the data read as a chunk, when it
    /// reads as one.
    Event { data: String, chunk: Option<ChatCompletionChunk> },
    /// The stream failed with this message.
    StreamError(String),
    /// The stream ended.
    Closed,
    /// No event came within the idle timeout.
    IdleTimeout,
}

/// What to send on, in order, and whether the stream is over.
#[derive(Debug)]
pub struct SseStep {
    pub outputs: Vec<Result<ResponseEvent, ApiError>>,
    pub done: bool,
}

/// The mathematical form of an output.
pub open spec fn output_view(o: Result<ResponseEvent, ApiError>) -> Result<ResponseEventView, Seq<char>> {
    match o {
        Ok(e) => Ok(e@),
        Err(ApiError::Stream(m)) => Err(m@),
    }
}

/// The mathematical forms of outputs.
pub open spec fn output_views(s: Seq<Result<ResponseEvent, ApiError>>) -> Seq<Result<ResponseEventView, Seq<char>>> {
    s.map_values(|o: Result<ResponseEvent, ApiError>| output_view(o))
}

/// Events as successful outputs.
pub open spec fn as_outputs(e: Seq<ResponseEventView>) -> Seq<Result<ResponseEventView, Seq<char>>> {
    e.map_values(|x: ResponseEventView| Ok::<ResponseEventView, Seq<char>>(x))
}

/// The data that marks the end of the stream, once trimmed.
pub open spec fn done_marker() -> Seq<char> {
    "[DONE]"@
}

/// The message sent when the stream ends before the response finished.
pub open spec fn closed_early_message() -> Seq<char> {
    "stream closed before chat completion finished"@
}

/// The message sent when no event arrives in time.
pub open spec fn idle_timeout_message() -> Seq<char> {
    "idle timeout waiting for SSE"@
}

/// `st` marked finished.
pub open spec fn mark_finished(st: StateView) -> StateView {
    StateView {
        response_id: st.response_id,
        text: st.text,
        tool_calls: st.tool_calls,
        usage: st.usage,
        finished: true,
    }
}

/// One step of reading the stream: the next state, what is sent, and whether
/// the stream is over.
pub open spec fn sse_step_spec(st: StateView, input: SseInput) -> (StateView, Seq<Result<ResponseEventView, Seq<char>>>, bool) {
    match input {
        SseInput::StreamError(m) => (st, seq![Err(m@)], true),
        SseInput::IdleTimeout => (st, seq![Err(idle_timeout_message())], true),
        SseInput::Closed => if st.finished {
            (drained(st), as_outputs(terminal_events_spec(st)), true)
        } else {
            (st, seq![Err(closed_early_message())], true)
        },
        SseInput::Event { data, chunk } => if trim(data@) == done_marker() {
            let f = mark_finished(st);
            (drained(f), as_outputs(terminal_events_spec(f)), true)
        } else {
            match chunk {
                None => (st, Seq::empty(), false),
                Some(c) => {
                    let (s1, e1) = apply_chunk_spec(st, c);
                    if s1.finished {
                        (drained(s1), as_outputs(e1 + terminal_events_spec(s1)), true)
                    } else {
                        (s1, as_outputs(e1), false)
                    }
                },
            }
        },
    }
}

/// Moves events into outputs.
fn push_events(out: &mut Vec<Result<ResponseEvent, ApiError>>, events: Vec<ResponseEvent>)
    ensures
        output_views(final(out)@) == output_views(old(out)@) + as_outputs(event_views(events@)),
{
    let ghost start = output_views(out@);
    let ghost all = event_views(events@);
    for e in it: events
        invariant
            all == event_views(it.seq()),
            output_views(out@) == start + as_outputs(all.take(it.index())),
    {
        let ghost before = output_views(out@);
        let ghost i = it.index();
        out.push(Ok(e));
        proof {
            assert(all.take(i + 1) =~= all.take(i).push(all[i]));
            assert(output_views(out@) =~= before.push(Ok(all[i])));
            assert(as_outputs(all.take(i + 1)) =~= as_outputs(all.take(i)).push(Ok(all[i])));
        }
    }
    assert(all.take(all.len() as int) =~= all);
}

/// Reads one observation of the stream into `state` and says what to send on.
///
/// A stream error or an idle timeout ends the stream with that error. The end
/// of the stream closes the response if it finished, and is an error
/// otherwise. An event whose trimmed data is `[DONE]` finishes and closes the
/// response. An event that does not read as a chunk is skipped. A chunk is
/// applied; its events are sent, and if it finished the response, the closing
/// events follow.
pub fn process_sse_input(state: &mut ChatCompletionsState, input: SseInput) -> (step: SseStep)
    ensures
        ({
            let (s, o, d) = sse_step_spec(old(state)@, input);
            final(state)@ == s && output_views(step.outputs@) == o && step.done == d
        }),
{
    let mut outputs: Vec<Result<ResponseEvent, ApiError>> = Vec::new();
    match input {
        SseInput::StreamError(m) => {
            outputs.push(Err(ApiError::Stream(m)));
            proof {
                assert(output_views(outputs@) =~= seq![Err(m@)]);
            }
            SseStep { outputs, done: true }
        },
        SseInput::IdleTimeout => {
            outputs.push(Err(ApiError::Stream("idle timeout waiting for SSE".to_owned())));
            proof {
                assert(output_views(outputs@) =~= seq![Err(idle_timeout_message())]);
            }
            SseStep { outputs, done: true }
        },
        SseInput::Closed => {
            if state.finished {
                let events = state.terminal_events();
                push_events(&mut outputs, events);
                proof {
                    assert(output_views(outputs@) =~= as_outputs(terminal_events_spec(old(state)@)));
                }
            } else {
                outputs.push(
                    Err(ApiError::Stream("stream closed before chat completion finished".to_owned())),
                );
                proof {
                    assert(output_views(outputs@) =~= seq![Err(closed_early_message())]);
                }
            }
            SseStep { outputs, done: true }
        },
        SseInput::Event { data, chunk } => {
            if trimmed_equals(data.as_str(), "[DONE]") {
                state.finished = true;
                let events = state.terminal_events();
                push_events(&mut outputs, events);
                proof {
                    assert(output_views(outputs@) =~= as_outputs(terminal_events_spec(mark_finished(old(state)@))));
                }
                return SseStep { outputs, done: true };
            }
            match chunk {
                None => {
                    proof {
                        assert(output_views(outputs@) =~= Seq::<Result<ResponseEventView, Seq<char>>>::empty());
                    }
                    SseStep { outputs, done: false }
                },
                Some(c) => {
                    let events = state.apply_chunk(c);
                    let ghost e1 = event_views(events@);
                    push_events(&mut outputs, events);
                    if state.finished {
                        let closing = state.terminal_events();
                        let ghost e2 = event_views(closing@);
                        push_events(&mut outputs, closing);
                        proof {
                            assert(as_outputs(e1 + e2) =~= as_outputs(e1) + as_outputs(e2));
                            assert(output_views(outputs@) =~= as_outputs(e1 + e2));
                        }
                        SseStep { outputs, done: true }
                    } else {
                        proof {
                            assert(output_views(outputs@) =~= as_outputs(e1));
                        }
                        SseStep { outputs, done: false }
                    }
                },
            }
        },
    }
}

} // verus!
