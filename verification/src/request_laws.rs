//! Laws of the mapping into Chat Completions requests.

use vstd::prelude::*;
use crate::chat_request::chat_content_spec;
use crate::chat_request::chat_messages_spec;
use crate::chat_request::chat_tools_spec;
use crate::chat_request::flush_spec;
use crate::chat_request::messages_fold;
use crate::chat_request::output_text;
use crate::chat_request::tool_name_spec;
use crate::chat_request::ChatMessageView;
use crate::chat_request::ChatToolCallView;
use crate::chat_request::ToolSpec;
use crate::model::ResponseItemView;

verus! {

/// The tool calls of the messages, in order.
pub open spec fn flat_calls(ms: Seq<ChatMessageView>) -> Seq<ChatToolCallView>
    decreases ms.len(),
{
    if ms.len() == 0 {
        Seq::empty()
    } else {
        flat_calls(ms.drop_last()) + match ms.last() {
            ChatMessageView::ToolCalls { tool_calls } => tool_calls,
            _ => Seq::empty(),
        }
    }
}

/// The tool calls that the items make, in order.
pub open spec fn item_calls(items: Seq<ResponseItemView>) -> Seq<ChatToolCallView>
    decreases items.len(),
{
    if items.len() == 0 {
        Seq::empty()
    } else {
        item_calls(items.drop_last()) + match items.last() {
            ResponseItemView::FunctionCall { name, namespace, arguments, call_id, .. } => seq![
                ChatToolCallView { id: call_id, name: tool_name_spec(namespace, name), arguments },
            ],
            ResponseItemView::CustomToolCall { call_id, name, input } => seq![
                ChatToolCallView { id: call_id, name, arguments: input },
            ],
            _ => Seq::empty(),
        }
    }
}

/// The messages other than tool-call messages, in order.
pub open spec fn plain_messages(ms: Seq<ChatMessageView>) -> Seq<ChatMessageView>
    decreases ms.len(),
{
    if ms.len() == 0 {
        Seq::empty()
    } else {
        plain_messages(ms.drop_last()) + match ms.last() {
            ChatMessageView::ToolCalls { .. } => Seq::empty(),
            m => seq![m],
        }
    }
}

/// The messages and tool outputs of the items as messages, in order.
pub open spec fn item_messages(items: Seq<ResponseItemView>) -> Seq<ChatMessageView>
    decreases items.len(),
{
    if items.len() == 0 {
        Seq::empty()
    } else {
        item_messages(items.drop_last()) + match items.last() {
            ResponseItemView::Message { role, content, .. } => seq![
                ChatMessageView::Content { role, content: chat_content_spec(content) },
            ],
            ResponseItemView::FunctionCallOutput { call_id, output } => seq![
                ChatMessageView::ToolOutput { tool_call_id: call_id, content: output_text(output) },
            ],
            ResponseItemView::CustomToolCallOutput { call_id, output } => seq![
                ChatMessageView::ToolOutput { tool_call_id: call_id, content: output_text(output) },
            ],
            _ => Seq::empty(),
        }
    }
}

/// Whether every tool-call message holds at least one call and no two
/// tool-call messages are neighbours.
pub open spec fn well_grouped(ms: Seq<ChatMessageView>) -> bool {
    &&& forall|i: int| 0 <= i < ms.len() ==> (#[trigger] ms[i] matches ChatMessageView::ToolCalls { tool_calls }
        ==> tool_calls.len() > 0)
    &&& forall|i: int| 0 <= i < ms.len() - 1 ==> !(#[trigger] ms[i] is ToolCalls && ms[i + 1] is ToolCalls)
}

proof fn lemma_push_parts(ms: Seq<ChatMessageView>, m: ChatMessageView)
    ensures
        flat_calls(ms.push(m)) == flat_calls(ms) + match m {
            ChatMessageView::ToolCalls { tool_calls } => tool_calls,
            _ => Seq::empty(),
        },
        plain_messages(ms.push(m)) == plain_messages(ms) + match m {
            ChatMessageView::ToolCalls { .. } => Seq::empty(),
            x => seq![x],
        },
{
    assert(ms.push(m).drop_last() =~= ms);
}

proof fn lemma_flush_parts(ms: Seq<ChatMessageView>, p: Seq<ChatToolCallView>)
    requires
        ms.len() == 0 || !(ms.last() is ToolCalls),
        well_grouped(ms),
    ensures
        flat_calls(flush_spec(ms, p)) == flat_calls(ms) + p,
        plain_messages(flush_spec(ms, p)) == plain_messages(ms),
        well_grouped(flush_spec(ms, p)),
{
    if p.len() == 0 {
        assert(flat_calls(ms) + p =~= flat_calls(ms));
    } else {
        let m = ChatMessageView::ToolCalls { tool_calls: p };
        lemma_push_parts(ms, m);
        assert(plain_messages(ms) + Seq::<ChatMessageView>::empty() =~= plain_messages(ms));
        let f = ms.push(m);
        assert forall|i: int| 0 <= i < f.len() - 1 implies !(#[trigger] f[i] is ToolCalls && f[i + 1] is ToolCalls) by {
            if i < ms.len() - 1 {
                assert(f[i] == ms[i] && f[i + 1] == ms[i + 1]);
            } else {
                assert(f[i] == ms.last());
            }
        }
        assert forall|i: int| 0 <= i < f.len() implies (#[trigger] f[i] matches ChatMessageView::ToolCalls { tool_calls }
            ==> tool_calls.len() > 0) by {
            if i < ms.len() {
                assert(f[i] == ms[i]);
            }
        }
    }
}

proof fn lemma_push_plain_grouped(ms: Seq<ChatMessageView>, m: ChatMessageView)
    requires
        well_grouped(ms),
        !(m is ToolCalls),
    ensures
        well_grouped(ms.push(m)),
{
    let f = ms.push(m);
    assert forall|i: int| 0 <= i < f.len() - 1 implies !(#[trigger] f[i] is ToolCalls && f[i + 1] is ToolCalls) by {
        if i < ms.len() - 1 {
            assert(f[i] == ms[i] && f[i + 1] == ms[i + 1]);
        } else {
            assert(f[i + 1] == m);
        }
    }
    assert forall|i: int| 0 <= i < f.len() implies (#[trigger] f[i] matches ChatMessageView::ToolCalls { tool_calls }
        ==> tool_calls.len() > 0) by {
        if i < ms.len() {
            assert(f[i] == ms[i]);
        }
    }
}

proof fn lemma_fold(items: Seq<ResponseItemView>)
    ensures
        ({
            let (ms, p) = messages_fold(items);
            &&& flat_calls(ms) + p == item_calls(items)
            &&& plain_messages(ms) == item_messages(items)
            &&& well_grouped(ms)
            &&& (ms.len() == 0 || !(ms.last() is ToolCalls))
        }),
    decreases items.len(),
{
    let (ms, p) = messages_fold(items);
    if items.len() == 0 {
        assert(flat_calls(ms) + p =~= item_calls(items));
    } else {
        lemma_fold(items.drop_last());
        let (ms0, p0) = messages_fold(items.drop_last());
        match items.last() {
            ResponseItemView::Message { role, content, .. } => {
                let m = ChatMessageView::Content { role, content: chat_content_spec(content) };
                lemma_flush_parts(ms0, p0);
                lemma_push_parts(flush_spec(ms0, p0), m);
                lemma_push_plain_grouped(flush_spec(ms0, p0), m);
                assert(flat_calls(ms) + p =~= item_calls(items));
            },
            ResponseItemView::FunctionCallOutput { call_id, output } => {
                let m = ChatMessageView::ToolOutput { tool_call_id: call_id, content: output_text(output) };
                lemma_flush_parts(ms0, p0);
                lemma_push_parts(flush_spec(ms0, p0), m);
                lemma_push_plain_grouped(flush_spec(ms0, p0), m);
                assert(flat_calls(ms) + p =~= item_calls(items));
            },
            ResponseItemView::CustomToolCallOutput { call_id, output } => {
                let m = ChatMessageView::ToolOutput { tool_call_id: call_id, content: output_text(output) };
                lemma_flush_parts(ms0, p0);
                lemma_push_parts(flush_spec(ms0, p0), m);
                lemma_push_plain_grouped(flush_spec(ms0, p0), m);
                assert(flat_calls(ms) + p =~= item_calls(items));
            },
            ResponseItemView::FunctionCall { .. } => {
                assert(flat_calls(ms) + p =~= item_calls(items));
                assert(plain_messages(ms0) + Seq::<ChatMessageView>::empty() =~= plain_messages(ms0));
            },
            ResponseItemView::CustomToolCall { .. } => {
                assert(flat_calls(ms) + p =~= item_calls(items));
                assert(plain_messages(ms0) + Seq::<ChatMessageView>::empty() =~= plain_messages(ms0));
            },
            _ => {
                assert(item_calls(items) =~= item_calls(items.drop_last()));
                assert(item_messages(items) =~= item_messages(items.drop_last()));
            },
        }
    }
}

/// Every tool call of the conversation is sent, once and in order; the
/// messages and tool outputs are sent, one message each and in order; tool
/// calls are gathered in non-empty assistant messages, never two in a row.
pub proof fn law_messages_keep_calls_and_order(items: Seq<ResponseItemView>)
    ensures
        flat_calls(chat_messages_spec(items)) == item_calls(items),
        plain_messages(chat_messages_spec(items)) == item_messages(items),
        well_grouped(chat_messages_spec(items)),
{
    lemma_fold(items);
    let (ms, p) = messages_fold(items);
    lemma_flush_parts(ms, p);
}

/// The tools of two lists together are the tools of the first followed by the
/// tools of the second: each tool is mapped on its own and order is kept.
pub proof fn law_chat_tools_concat(a: Seq<ToolSpec>, b: Seq<ToolSpec>)
    ensures
        chat_tools_spec(a + b) == chat_tools_spec(a) + chat_tools_spec(b),
    decreases b.len(),
{
    if b.len() == 0 {
        assert(a + b =~= a);
        assert(chat_tools_spec(a) + chat_tools_spec(b) =~= chat_tools_spec(a));
    } else {
        law_chat_tools_concat(a, b.drop_last());
        assert((a + b).drop_last() =~= a + b.drop_last());
        assert((a + b).last() == b.last());
        assert(chat_tools_spec(a) + chat_tools_spec(b.drop_last()) + crate::chat_request::tools_of(b.last())
            =~= chat_tools_spec(a) + (chat_tools_spec(b.drop_last()) + crate::chat_request::tools_of(b.last())));
    }
}

/// Whether an item has no Chat Completions form and is left out.
pub open spec fn is_dropped_kind(item: ResponseItemView) -> bool {
    !(item is Message || item is FunctionCall || item is CustomToolCall || item is FunctionCallOutput
        || item is CustomToolCallOutput)
}

/// The items that have a Chat Completions form, in order.
pub open spec fn kept_items(items: Seq<ResponseItemView>) -> Seq<ResponseItemView>
    decreases items.len(),
{
    if items.len() == 0 {
        Seq::empty()
    } else {
        let rest = kept_items(items.drop_last());
        if is_dropped_kind(items.last()) {
            rest
        } else {
            rest.push(items.last())
        }
    }
}

/// Whether the last item that has a Chat Completions form is a tool call.
pub open spec fn ends_in_call(items: Seq<ResponseItemView>) -> bool
    decreases items.len(),
{
    if items.len() == 0 {
        false
    } else if is_dropped_kind(items.last()) {
        ends_in_call(items.drop_last())
    } else {
        items.last() is FunctionCall || items.last() is CustomToolCall
    }
}

proof fn lemma_fold_kept(items: Seq<ResponseItemView>)
    ensures
        messages_fold(items) == messages_fold(kept_items(items)),
    decreases items.len(),
{
    if items.len() > 0 {
        lemma_fold_kept(items.drop_last());
        if !is_dropped_kind(items.last()) {
            let k = kept_items(items);
            assert(k.drop_last() =~= kept_items(items.drop_last()));
            assert(k.last() == items.last());
        }
    }
}

/// Items without a Chat Completions form change nothing: two conversations
/// that agree on their other items give the same messages, so such items can
/// be inserted or removed anywhere, even inside a run of tool calls.
pub proof fn law_dropped_items_change_nothing(a: Seq<ResponseItemView>, b: Seq<ResponseItemView>)
    requires
        kept_items(a) == kept_items(b),
    ensures
        chat_messages_spec(a) == chat_messages_spec(b),
{
    lemma_fold_kept(a);
    lemma_fold_kept(b);
}

proof fn lemma_pending_iff_ends_in_call(items: Seq<ResponseItemView>)
    ensures
        messages_fold(items).1.len() > 0 <==> ends_in_call(items),
    decreases items.len(),
{
    if items.len() > 0 {
        lemma_pending_iff_ends_in_call(items.drop_last());
    }
}

proof fn lemma_flush_prefix(ma: Seq<ChatMessageView>, mb: Seq<ChatMessageView>, p: Seq<ChatToolCallView>)
    ensures
        flush_spec(ma + mb, p) == ma + flush_spec(mb, p),
{
    if p.len() > 0 {
        assert((ma + mb).push(ChatMessageView::ToolCalls { tool_calls: p }) =~= ma + mb.push(
            ChatMessageView::ToolCalls { tool_calls: p },
        ));
    }
}

proof fn lemma_fold_append(a: Seq<ResponseItemView>, b: Seq<ResponseItemView>)
    requires
        messages_fold(a).1.len() == 0,
    ensures
        messages_fold(a + b) == (messages_fold(a).0 + messages_fold(b).0, messages_fold(b).1),
    decreases b.len(),
{
    let ma = messages_fold(a).0;
    if b.len() == 0 {
        assert(a + b =~= a);
        assert(ma + Seq::<ChatMessageView>::empty() =~= ma);
        assert(messages_fold(a).1 =~= Seq::<ChatToolCallView>::empty());
    } else {
        lemma_fold_append(a, b.drop_last());
        assert((a + b).drop_last() =~= a + b.drop_last());
        assert((a + b).last() == b.last());
        let (mb, pb) = messages_fold(b.drop_last());
        lemma_flush_prefix(ma, mb, pb);
        match b.last() {
            ResponseItemView::Message { role, content, .. } => {
                let m = ChatMessageView::Content { role, content: chat_content_spec(content) };
                assert((ma + flush_spec(mb, pb)).push(m) =~= ma + flush_spec(mb, pb).push(m));
            },
            ResponseItemView::FunctionCallOutput { call_id, output } => {
                let m = ChatMessageView::ToolOutput { tool_call_id: call_id, content: output_text(output) };
                assert((ma + flush_spec(mb, pb)).push(m) =~= ma + flush_spec(mb, pb).push(m));
            },
            ResponseItemView::CustomToolCallOutput { call_id, output } => {
                let m = ChatMessageView::ToolOutput { tool_call_id: call_id, content: output_text(output) };
                assert((ma + flush_spec(mb, pb)).push(m) =~= ma + flush_spec(mb, pb).push(m));
            },
            _ => {},
        }
    }
}

/// When the first conversation does not end in a run of tool calls, the
/// messages of the two conversations together are the messages of the first
/// followed by those of the second.
pub proof fn law_messages_concat(a: Seq<ResponseItemView>, b: Seq<ResponseItemView>)
    requires
        !ends_in_call(a),
    ensures
        chat_messages_spec(a + b) == chat_messages_spec(a) + chat_messages_spec(b),
{
    lemma_pending_iff_ends_in_call(a);
    lemma_fold_append(a, b);
    let (ma, pa) = messages_fold(a);
    let (mb, pb) = messages_fold(b);
    lemma_flush_prefix(ma, mb, pb);
    assert(chat_messages_spec(a) == ma);
}

/// A message whose content holds an image anywhere is sent as parts, one per
/// item in order: text items as text parts, each image as an image part with
/// its url and detail. Content without an image is sent as text.
pub proof fn law_images_make_parts(c: Seq<crate::model::ContentItemView>)
    ensures
        (exists|i: int| 0 <= i < c.len() && #[trigger] c[i] is InputImage) ==> {
            &&& chat_content_spec(c) matches crate::chat_request::ChatContentView::Parts(ps)
            &&& ps.len() == c.len()
            &&& forall|i: int| 0 <= i < c.len() ==> match #[trigger] c[i] {
                crate::model::ContentItemView::InputImage { image_url, detail } => ps[i]
                    == crate::chat_request::ChatContentPartView::ImageUrl {
                    url: image_url,
                    detail: match detail {
                        Some(d) => Some(crate::chat_request::image_detail_name(d)),
                        None => None,
                    },
                },
                crate::model::ContentItemView::InputText { text } => ps[i]
                    == crate::chat_request::ChatContentPartView::Text { text },
                crate::model::ContentItemView::OutputText { text } => ps[i]
                    == crate::chat_request::ChatContentPartView::Text { text },
            }
        },
        (forall|i: int| 0 <= i < c.len() ==> !(#[trigger] c[i] is InputImage)) ==> chat_content_spec(c) is Text,
{
}

/// Every tool, wherever it stands in the list, adds its own Chat tools after
/// those of the tools before it: a function tool one tool with its name,
/// description and parameters; a namespace one tool per member, in order,
/// named with the namespace in front and carrying the member's own
/// description and parameters; any other kind of tool none.
pub proof fn law_chat_tools_of_each_tool(a: Seq<ToolSpec>, t: ToolSpec)
    ensures
        ({
            let before = chat_tools_spec(a);
            let r = chat_tools_spec(a.push(t));
            &&& r.subrange(0, before.len() as int) == before
            &&& match t {
                ToolSpec::Function(f) => {
                    &&& r.len() == before.len() + 1
                    &&& r[before.len() as int].name == f.name@
                    &&& r[before.len() as int].description == f.description@
                    &&& r[before.len() as int].parameters == f.parameters@
                },
                ToolSpec::Namespace(ns) => {
                    &&& r.len() == before.len() + ns.tools@.len()
                    &&& forall|i: int| 0 <= i < ns.tools@.len() ==> match #[trigger] ns.tools@[i] {
                        crate::chat_request::ResponsesApiNamespaceTool::Function(m) => {
                            &&& r[before.len() + i].name == ns.name@ + m.name@
                            &&& r[before.len() + i].description == m.description@
                            &&& r[before.len() + i].parameters == m.parameters@
                        },
                    }
                },
                _ => r.len() == before.len(),
            }
        }),
{
    let before = chat_tools_spec(a);
    let r = chat_tools_spec(a.push(t));
    assert(a.push(t).drop_last() =~= a);
    assert(r == before + crate::chat_request::tools_of(t));
    assert(r.subrange(0, before.len() as int) =~= before);
}

/// The JSON of a tool-call message is an assistant message with empty
/// content whose `tool_calls` array lists every call, in order, each with
/// its id, type `function`, and the call's name and arguments.
pub proof fn law_tool_call_message_lists_every_call(calls: Seq<ChatToolCallView>)
    ensures
        ({
            let m = crate::chat_json::message_json(ChatMessageView::ToolCalls { tool_calls: calls });
            &&& crate::json::string_member(m, "role"@) == Some("assistant"@)
            &&& crate::json::string_member(m, "content"@) == Some(Seq::<char>::empty())
            &&& crate::json::json_get(m, "tool_calls"@) matches Some(crate::json::Json::Array(arr))
            &&& arr.len() == calls.len()
            &&& forall|i: int| 0 <= i < calls.len() ==> {
                &&& crate::json::string_member(#[trigger] arr[i], "id"@) == Some(calls[i].id)
                &&& crate::json::string_member(arr[i], "type"@) == Some("function"@)
                &&& crate::json::json_get(arr[i], "function"@) matches Some(f)
                &&& crate::json::string_member(f, "name"@) == Some(calls[i].name)
                &&& crate::json::string_member(f, "arguments"@) == Some(calls[i].arguments)
            }
        }),
{
    reveal_strlit("role");
    reveal_strlit("assistant");
    reveal_strlit("content");
    reveal_strlit("tool_calls");
    reveal_strlit("id");
    reveal_strlit("type");
    reveal_strlit("function");
    reveal_strlit("name");
    reveal_strlit("arguments");
    assert("role"@.len() == 4 && "content"@.len() == 7 && "tool_calls"@.len() == 10);
    assert("id"@.len() == 2 && "type"@.len() == 4 && "function"@.len() == 8);
    assert("name"@.len() == 4 && "arguments"@.len() == 9);
    let arr = calls.map_values(|c: ChatToolCallView| crate::chat_json::tool_call_json(c));
    let mf = seq![
        ("content"@, crate::json::Json::Str(Seq::empty())),
        ("role"@, crate::json::Json::Str("assistant"@)),
        ("tool_calls"@, crate::json::Json::Array(arr)),
    ];
    assert(crate::chat_json::message_json(ChatMessageView::ToolCalls { tool_calls: calls })
        == crate::json::Json::Object(mf));
    lemma_three_members(mf, "role"@);
    lemma_three_members(mf, "content"@);
    lemma_three_members(mf, "tool_calls"@);
    assert forall|i: int| 0 <= i < calls.len() implies {
        &&& crate::json::string_member(#[trigger] arr[i], "id"@) == Some(calls[i].id)
        &&& crate::json::string_member(arr[i], "type"@) == Some("function"@)
        &&& crate::json::json_get(arr[i], "function"@) matches Some(f)
        &&& crate::json::string_member(f, "name"@) == Some(calls[i].name)
        &&& crate::json::string_member(f, "arguments"@) == Some(calls[i].arguments)
    } by {
        let c = calls[i];
        assert(arr[i] == crate::chat_json::tool_call_json(c));
        let ff = seq![("arguments"@, crate::json::Json::Str(c.arguments)), ("name"@, crate::json::Json::Str(c.name))];
        let cf = seq![
            ("function"@, crate::json::Json::Object(ff)),
            ("id"@, crate::json::Json::Str(c.id)),
            ("type"@, crate::json::Json::Str("function"@)),
        ];
        assert(crate::chat_json::tool_call_json(c) == crate::json::Json::Object(cf));
        lemma_three_members(cf, "id"@);
        lemma_three_members(cf, "type"@);
        lemma_three_members(cf, "function"@);
        lemma_two_members(ff, "name"@);
        lemma_two_members(ff, "arguments"@);
    }
}

/// Looking a key up among two members with distinct keys.
proof fn lemma_two_members(fs: Seq<(Seq<char>, crate::json::Json)>, key: Seq<char>)
    requires
        fs.len() == 2,
    ensures
        crate::json::field_value(fs, key) == if key == fs[0].0 {
            Some(fs[0].1)
        } else if key == fs[1].0 {
            Some(fs[1].1)
        } else {
            None::<crate::json::Json>
        },
{
    assert(fs.drop_first().drop_first() =~= Seq::<(Seq<char>, crate::json::Json)>::empty());
    assert(fs.drop_first()[0] == fs[1]);
    reveal_with_fuel(crate::json::field_value, 3);
}

/// Looking a key up among three members.
proof fn lemma_three_members(fs: Seq<(Seq<char>, crate::json::Json)>, key: Seq<char>)
    requires
        fs.len() == 3,
    ensures
        crate::json::field_value(fs, key) == if key == fs[0].0 {
            Some(fs[0].1)
        } else if key == fs[1].0 {
            Some(fs[1].1)
        } else if key == fs[2].0 {
            Some(fs[2].1)
        } else {
            None::<crate::json::Json>
        },
{
    lemma_two_members(fs.drop_first(), key);
    assert(fs.drop_first()[0] == fs[1]);
    assert(fs.drop_first()[1] == fs[2]);
}

/// Looking a key up in a single member.
proof fn lemma_one_member(fs: Seq<(Seq<char>, crate::json::Json)>, key: Seq<char>)
    requires
        fs.len() == 1,
    ensures
        crate::json::field_value(fs, key) == if key == fs[0].0 {
            Some(fs[0].1)
        } else {
            None::<crate::json::Json>
        },
{
    assert(fs.drop_first() =~= Seq::<(Seq<char>, crate::json::Json)>::empty());
    reveal_with_fuel(crate::json::field_value, 2);
}

/// The JSON of a tool: type `function`, and under `function` its name,
/// description and parameters as they are.
pub proof fn law_tool_json_carries_the_tool(t: crate::chat_request::ChatToolView)
    ensures
        ({
            let j = crate::chat_json::tool_json(t);
            &&& crate::json::string_member(j, "type"@) == Some("function"@)
            &&& crate::json::json_get(j, "function"@) matches Some(f)
            &&& crate::json::string_member(f, "name"@) == Some(t.name)
            &&& crate::json::string_member(f, "description"@) == Some(t.description)
            &&& crate::json::json_get(f, "parameters"@) == Some(t.parameters)
        }),
{
    reveal_strlit("type");
    reveal_strlit("function");
    reveal_strlit("name");
    reveal_strlit("description");
    reveal_strlit("parameters");
    assert("type"@.len() == 4 && "function"@.len() == 8);
    assert("name"@.len() == 4 && "description"@.len() == 11 && "parameters"@.len() == 10);
    let ff = seq![
        ("description"@, crate::json::Json::Str(t.description)),
        ("name"@, crate::json::Json::Str(t.name)),
        ("parameters"@, t.parameters),
    ];
    let tf = seq![("function"@, crate::json::Json::Object(ff)), ("type"@, crate::json::Json::Str("function"@))];
    assert(crate::chat_json::tool_json(t) == crate::json::Json::Object(tf));
    lemma_two_members(tf, "type"@);
    lemma_two_members(tf, "function"@);
    lemma_three_members(ff, "name"@);
    lemma_three_members(ff, "description"@);
    lemma_three_members(ff, "parameters"@);
}

/// What the JSON of a content part says: a text part has type `text` and its
/// text; an image part has type `image_url` and, under `image_url`, its url
/// and its detail when it has one.
pub open spec fn part_json_says(j: crate::json::Json, p: crate::chat_request::ChatContentPartView) -> bool {
    match p {
        crate::chat_request::ChatContentPartView::Text { text } => {
            &&& crate::json::string_member(j, "type"@) == Some("text"@)
            &&& crate::json::string_member(j, "text"@) == Some(text)
        },
        crate::chat_request::ChatContentPartView::ImageUrl { url, detail } => {
            &&& crate::json::string_member(j, "type"@) == Some("image_url"@)
            &&& crate::json::json_get(j, "image_url"@) matches Some(o)
            &&& crate::json::string_member(o, "url"@) == Some(url)
            &&& crate::json::string_member(o, "detail"@) == detail
        },
    }
}

proof fn lemma_part_json(p: crate::chat_request::ChatContentPartView)
    ensures
        part_json_says(crate::chat_json::part_json(p), p),
{
    reveal_strlit("type");
    reveal_strlit("text");
    reveal_strlit("image_url");
    reveal_strlit("url");
    reveal_strlit("detail");
    assert("type"@.len() == 4 && "text"@.len() == 4 && "image_url"@.len() == 9);
    assert("url"@.len() == 3 && "detail"@.len() == 6);
    assert("type"@[0] == 't' && "type"@[1] == 'y' && "text"@[1] == 'e');
    match p {
        crate::chat_request::ChatContentPartView::Text { text } => {
            let f = seq![("text"@, crate::json::Json::Str(text)), ("type"@, crate::json::Json::Str("text"@))];
            assert(crate::chat_json::part_json(p) == crate::json::Json::Object(f));
            assert("text"@ != "type"@);
            lemma_two_members(f, "type"@);
            lemma_two_members(f, "text"@);
        },
        crate::chat_request::ChatContentPartView::ImageUrl { url, detail } => {
            let o = crate::chat_json::image_url_json(url, detail);
            let f = seq![("image_url"@, o), ("type"@, crate::json::Json::Str("image_url"@))];
            assert(crate::chat_json::part_json(p) == crate::json::Json::Object(f));
            lemma_two_members(f, "type"@);
            lemma_two_members(f, "image_url"@);
            match detail {
                Some(d) => {
                    let g = seq![("detail"@, crate::json::Json::Str(d)), ("url"@, crate::json::Json::Str(url))];
                    assert(o == crate::json::Json::Object(g));
                    lemma_two_members(g, "url"@);
                    lemma_two_members(g, "detail"@);
                },
                None => {
                    let g = seq![("url"@, crate::json::Json::Str(url))];
                    assert(o == crate::json::Json::Object(g));
                    lemma_one_member(g, "url"@);
                    lemma_one_member(g, "detail"@);
                },
            }
        },
    }
}

/// The JSON of a content message carries its role, and its content either as
/// the text itself or as an array with one entry per part, in order; the
/// JSON of a tool output carries role `tool`, the call id and the output.
pub proof fn law_message_json_carries_the_message(m: ChatMessageView)
    ensures
        ({
            let j = crate::chat_json::message_json(m);
            match m {
                ChatMessageView::Content { role, content } => {
                    &&& crate::json::string_member(j, "role"@) == Some(role)
                    &&& match content {
                        crate::chat_request::ChatContentView::Text(t) => crate::json::json_get(j, "content"@)
                            == Some(crate::json::Json::Str(t)),
                        crate::chat_request::ChatContentView::Parts(ps) => {
                            &&& crate::json::json_get(j, "content"@) matches Some(crate::json::Json::Array(a))
                            &&& a.len() == ps.len()
                            &&& forall|i: int| 0 <= i < ps.len() ==> part_json_says(#[trigger] a[i], ps[i])
                        },
                    }
                },
                ChatMessageView::ToolOutput { tool_call_id, content } => {
                    &&& crate::json::string_member(j, "role"@) == Some("tool"@)
                    &&& crate::json::string_member(j, "tool_call_id"@) == Some(tool_call_id)
                    &&& crate::json::string_member(j, "content"@) == Some(content)
                },
                ChatMessageView::ToolCalls { .. } => true,
            }
        }),
{
    reveal_strlit("role");
    reveal_strlit("content");
    reveal_strlit("tool");
    reveal_strlit("tool_call_id");
    assert("role"@.len() == 4 && "content"@.len() == 7 && "tool_call_id"@.len() == 12);
    match m {
        ChatMessageView::Content { role, content } => {
            let cj = crate::chat_json::content_json(content);
            let f = seq![("content"@, cj), ("role"@, crate::json::Json::Str(role))];
            assert(crate::chat_json::message_json(m) == crate::json::Json::Object(f));
            lemma_two_members(f, "role"@);
            lemma_two_members(f, "content"@);
            match content {
                crate::chat_request::ChatContentView::Parts(ps) => {
                    let a = ps.map_values(|p: crate::chat_request::ChatContentPartView| crate::chat_json::part_json(p));
                    assert(cj == crate::json::Json::Array(a));
                    assert forall|i: int| 0 <= i < ps.len() implies part_json_says(#[trigger] a[i], ps[i]) by {
                        lemma_part_json(ps[i]);
                    }
                },
                _ => {},
            }
        },
        ChatMessageView::ToolOutput { tool_call_id, content } => {
            let f = seq![
                ("content"@, crate::json::Json::Str(content)),
                ("role"@, crate::json::Json::Str("tool"@)),
                ("tool_call_id"@, crate::json::Json::Str(tool_call_id)),
            ];
            assert(crate::chat_json::message_json(m) == crate::json::Json::Object(f));
            lemma_three_members(f, "role"@);
            lemma_three_members(f, "content"@);
            lemma_three_members(f, "tool_call_id"@);
        },
        _ => {},
    }
}

} // verus!
