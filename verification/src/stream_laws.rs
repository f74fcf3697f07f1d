//! Laws of the streaming state machine.

use vstd::prelude::*;
use crate::chat_stream::apply_chunk_spec;
use crate::chat_stream::choice_text;
use crate::chat_stream::choice_tool_deltas;
use crate::chat_stream::delta_slot;
use crate::chat_stream::as_outputs;
use crate::chat_stream::drained;
use crate::chat_stream::is_followed_choice;
use crate::chat_stream::is_key_order;
use crate::chat_stream::key_order;
use crate::chat_stream::mark_finished;
use crate::chat_stream::sse_step_spec;
use crate::chat_stream::terminal_events_spec;
use crate::chat_stream::tool_call_item;
use crate::chat_stream::SseInput;
use crate::chat_stream::record_chunk_header;
use crate::chat_stream::step_choice;
use crate::chat_stream::step_choices;
use crate::chat_stream::step_tool_call;
use crate::chat_stream::step_tool_calls;
use crate::chat_stream::ChatCompletionChoice;
use crate::chat_stream::ChatCompletionChunk;
use crate::chat_stream::ChatCompletionToolCallDelta;
use crate::chat_stream::StateView;
use crate::model::ResponseEventView;

verus! {

/// The text announced by a sequence of events: the concatenation of its text deltas.
pub open spec fn announced_text(e: Seq<ResponseEventView>) -> Seq<char>
    decreases e.len(),
{
    if e.len() == 0 {
        Seq::empty()
    } else {
        announced_text(e.drop_last()) + match e.last() {
            ResponseEventView::OutputTextDelta(t) => t,
            _ => Seq::empty(),
        }
    }
}

/// Whether every event is a delta (text or tool-call arguments).
pub open spec fn all_deltas(e: Seq<ResponseEventView>) -> bool {
    forall|i: int| 0 <= i < e.len() ==> is_nonempty_delta(#[trigger] e[i])
}

/// Whether an event is a text or argument delta with a non-empty payload.
pub open spec fn is_nonempty_delta(ev: ResponseEventView) -> bool {
    match ev {
        ResponseEventView::OutputTextDelta(t) => t.len() > 0,
        ResponseEventView::ToolCallInputDelta { delta, .. } => delta.len() > 0,
        _ => false,
    }
}

proof fn lemma_all_deltas_append(a: Seq<ResponseEventView>, b: Seq<ResponseEventView>)
    requires
        all_deltas(a),
        all_deltas(b),
    ensures
        all_deltas(a + b),
{
    assert forall|i: int| 0 <= i < (a + b).len() implies is_nonempty_delta(#[trigger] (a + b)[i]) by {
        if i < a.len() {
            assert((a + b)[i] == a[i]);
        } else {
            assert((a + b)[i] == b[i - a.len()]);
        }
    }
}

/// Whether some followed choice carries a finish reason.
pub open spec fn finishes(cs: Seq<ChatCompletionChoice>) -> bool {
    exists|i: int| 0 <= i < cs.len() && is_followed_choice(#[trigger] cs[i]) && cs[i].finish_reason is Some
}

proof fn lemma_announced_text_append(a: Seq<ResponseEventView>, b: Seq<ResponseEventView>)
    ensures
        announced_text(a + b) == announced_text(a) + announced_text(b),
    decreases b.len(),
{
    if b.len() == 0 {
        assert(a + b =~= a);
        assert(announced_text(a) + Seq::<char>::empty() =~= announced_text(a));
    } else {
        lemma_announced_text_append(a, b.drop_last());
        assert((a + b).drop_last() =~= a + b.drop_last());
        assert((a + b).last() == b.last());
        assert(announced_text(a) + announced_text(b.drop_last()) + match b.last() {
            ResponseEventView::OutputTextDelta(t) => t,
            _ => Seq::empty(),
        } =~= announced_text(a) + (announced_text(b.drop_last()) + match b.last() {
            ResponseEventView::OutputTextDelta(t) => t,
            _ => Seq::empty(),
        }));
    }
}

proof fn lemma_tool_call_keeps(st: StateView, d: ChatCompletionToolCallDelta)
    ensures
        ({
            let (s, e) = step_tool_call(st, d);
            &&& s.text == st.text
            &&& s.finished == st.finished
            &&& s.response_id == st.response_id
            &&& s.usage == st.usage
            &&& announced_text(e) == Seq::<char>::empty()
            &&& all_deltas(e)
        }),
{
    let (s, e) = step_tool_call(st, d);
    if e.len() == 1 {
        assert(e.drop_last() =~= Seq::<ResponseEventView>::empty());
        assert(announced_text(e.drop_last()) == Seq::<char>::empty());
        assert(e.last() is ToolCallInputDelta);
        assert(Seq::<char>::empty() + Seq::<char>::empty() =~= Seq::<char>::empty());
    } else {
        assert(e.len() == 0);
    }
}

proof fn lemma_tool_calls_keep(st: StateView, ds: Seq<ChatCompletionToolCallDelta>)
    ensures
        ({
            let (s, e) = step_tool_calls(st, ds);
            &&& s.text == st.text
            &&& s.finished == st.finished
            &&& s.response_id == st.response_id
            &&& s.usage == st.usage
            &&& announced_text(e) == Seq::<char>::empty()
            &&& all_deltas(e)
        }),
    decreases ds.len(),
{
    if ds.len() > 0 {
        lemma_tool_calls_keep(st, ds.drop_last());
        let (s1, e1) = step_tool_calls(st, ds.drop_last());
        lemma_tool_call_keeps(s1, ds.last());
        let (s2, e2) = step_tool_call(s1, ds.last());
        lemma_announced_text_append(e1, e2);
        assert(announced_text(e1) + announced_text(e2) =~= Seq::<char>::empty());
        lemma_all_deltas_append(e1, e2);
    }
}

proof fn lemma_choice(st: StateView, c: ChatCompletionChoice)
    ensures
        ({
            let (s, e) = step_choice(st, c);
            &&& s.text == st.text + announced_text(e)
            &&& s.finished == (st.finished || (is_followed_choice(c) && c.finish_reason is Some))
            &&& s.response_id == st.response_id
            &&& s.usage == st.usage
            &&& all_deltas(e)
        }),
{
    let (s, e) = step_choice(st, c);
    if !is_followed_choice(c) {
        assert(st.text + announced_text(e) =~= st.text);
    } else {
        let (s1, e1) = match choice_text(c) {
            Some(t) => (
                StateView {
                    response_id: st.response_id,
                    text: st.text + t,
                    tool_calls: st.tool_calls,
                    usage: st.usage,
                    finished: st.finished,
                },
                seq![ResponseEventView::OutputTextDelta(t)],
            ),
            None => (st, Seq::empty()),
        };
        lemma_tool_calls_keep(s1, choice_tool_deltas(c));
        let (s2, e2) = step_tool_calls(s1, choice_tool_deltas(c));
        lemma_announced_text_append(e1, e2);
        match choice_text(c) {
            Some(t) => {
                assert(e1.drop_last() =~= Seq::<ResponseEventView>::empty());
                assert(announced_text(e1.drop_last()) == Seq::<char>::empty());
                assert(e1.last() == ResponseEventView::OutputTextDelta(t));
                assert(Seq::<char>::empty() + t =~= t);
                assert(announced_text(e1) =~= t);
            },
            None => {},
        }
        assert(s.text =~= st.text + announced_text(e));
        lemma_all_deltas_append(e1, e2);
    }
}

proof fn lemma_choices(st: StateView, cs: Seq<ChatCompletionChoice>)
    ensures
        ({
            let (s, e) = step_choices(st, cs);
            &&& s.text == st.text + announced_text(e)
            &&& s.finished == (st.finished || finishes(cs))
            &&& s.response_id == st.response_id
            &&& s.usage == st.usage
            &&& all_deltas(e)
        }),
    decreases cs.len(),
{
    let (s, e) = step_choices(st, cs);
    if cs.len() == 0 {
        assert(st.text + announced_text(e) =~= st.text);
    } else {
        lemma_choices(st, cs.drop_last());
        let (s1, e1) = step_choices(st, cs.drop_last());
        lemma_choice(s1, cs.last());
        let (s2, e2) = step_choice(s1, cs.last());
        lemma_announced_text_append(e1, e2);
        assert(s.text =~= st.text + announced_text(e));
        lemma_all_deltas_append(e1, e2);
        if finishes(cs.drop_last()) {
            let i = choose|i: int| 0 <= i < cs.drop_last().len() && is_followed_choice(#[trigger] cs.drop_last()[i])
                && cs.drop_last()[i].finish_reason is Some;
            assert(cs[i] == cs.drop_last()[i]);
        }
        if is_followed_choice(cs.last()) && cs.last().finish_reason is Some {
            assert(cs[cs.len() - 1] == cs.last());
        }
        if finishes(cs) {
            let i = choose|i: int| 0 <= i < cs.len() && is_followed_choice(#[trigger] cs[i]) && cs[i].finish_reason is Some;
            if i < cs.len() - 1 {
                assert(cs.drop_last()[i] == cs[i]);
            }
        }
    }
}

/// A chunk appends to the accumulated text exactly the text it announces, in
/// order; it announces only deltas; it finishes the response exactly when a
/// followed choice carries a finish reason, and a finished response stays
/// finished.
pub proof fn law_chunk_text_and_finish(st: StateView, chunk: ChatCompletionChunk)
    ensures
        ({
            let (s, e) = apply_chunk_spec(st, chunk);
            &&& s.text == st.text + announced_text(e)
            &&& all_deltas(e)
            &&& s.finished == (st.finished || finishes(chunk.choices@))
        }),
{
    lemma_choices(record_chunk_header(st, chunk), chunk.choices@);
}

/// The arguments a tool-call delta carries (empty when it carries none).
pub open spec fn delta_arguments(d: ChatCompletionToolCallDelta) -> Seq<char> {
    match d.function {
        Some(f) => match f.arguments {
            Some(a) => a@,
            None => Seq::empty(),
        },
        None => Seq::empty(),
    }
}

/// The arguments that deltas carry for slot `k`, concatenated in order.
pub open spec fn slot_arguments(ds: Seq<ChatCompletionToolCallDelta>, k: u32) -> Seq<char>
    decreases ds.len(),
{
    if ds.len() == 0 {
        Seq::empty()
    } else {
        slot_arguments(ds.drop_last(), k) + if delta_slot(ds.last()) == k {
            delta_arguments(ds.last())
        } else {
            Seq::empty()
        }
    }
}

/// The arguments that the followed choices carry for slot `k`, concatenated in order.
pub open spec fn choices_slot_arguments(cs: Seq<ChatCompletionChoice>, k: u32) -> Seq<char>
    decreases cs.len(),
{
    if cs.len() == 0 {
        Seq::empty()
    } else {
        choices_slot_arguments(cs.drop_last(), k) + if is_followed_choice(cs.last()) {
            slot_arguments(choice_tool_deltas(cs.last()), k)
        } else {
            Seq::empty()
        }
    }
}

/// The arguments accumulated for slot `k` (empty when the slot is unknown).
pub open spec fn slot_args_of(st: StateView, k: u32) -> Seq<char> {
    if st.tool_calls.contains_key(k) {
        st.tool_calls[k].arguments
    } else {
        Seq::empty()
    }
}

proof fn lemma_tool_call_args(st: StateView, d: ChatCompletionToolCallDelta, k: u32)
    ensures
        slot_args_of(step_tool_call(st, d).0, k) == slot_args_of(st, k) + if delta_slot(d) == k {
            delta_arguments(d)
        } else {
            Seq::empty()
        },
{
    let s = step_tool_call(st, d).0;
    if delta_slot(d) == k {
        assert(s.tool_calls.contains_key(k));
        match d.function {
            Some(f) => match f.arguments {
                Some(a) => if a@.len() == 0 {
                    assert(slot_args_of(st, k) + a@ =~= slot_args_of(st, k));
                },
                None => {
                    assert(slot_args_of(st, k) + Seq::<char>::empty() =~= slot_args_of(st, k));
                },
            },
            None => {
                assert(slot_args_of(st, k) + Seq::<char>::empty() =~= slot_args_of(st, k));
            },
        }
    } else {
        assert(slot_args_of(st, k) + Seq::<char>::empty() =~= slot_args_of(st, k));
    }
}

proof fn lemma_tool_calls_args(st: StateView, ds: Seq<ChatCompletionToolCallDelta>, k: u32)
    ensures
        slot_args_of(step_tool_calls(st, ds).0, k) == slot_args_of(st, k) + slot_arguments(ds, k),
    decreases ds.len(),
{
    if ds.len() == 0 {
        assert(slot_args_of(st, k) + Seq::<char>::empty() =~= slot_args_of(st, k));
    } else {
        lemma_tool_calls_args(st, ds.drop_last(), k);
        let s1 = step_tool_calls(st, ds.drop_last()).0;
        lemma_tool_call_args(s1, ds.last(), k);
        let tail = if delta_slot(ds.last()) == k {
            delta_arguments(ds.last())
        } else {
            Seq::empty()
        };
        assert(slot_args_of(st, k) + slot_arguments(ds.drop_last(), k) + tail =~= slot_args_of(st, k)
            + (slot_arguments(ds.drop_last(), k) + tail));
    }
}

proof fn lemma_choice_args(st: StateView, c: ChatCompletionChoice, k: u32)
    ensures
        slot_args_of(step_choice(st, c).0, k) == slot_args_of(st, k) + if is_followed_choice(c) {
            slot_arguments(choice_tool_deltas(c), k)
        } else {
            Seq::empty()
        },
{
    if !is_followed_choice(c) {
        assert(slot_args_of(st, k) + Seq::<char>::empty() =~= slot_args_of(st, k));
    } else {
        let s1 = match choice_text(c) {
            Some(t) => StateView {
                response_id: st.response_id,
                text: st.text + t,
                tool_calls: st.tool_calls,
                usage: st.usage,
                finished: st.finished,
            },
            None => st,
        };
        lemma_tool_calls_args(s1, choice_tool_deltas(c), k);
    }
}

proof fn lemma_choices_args(st: StateView, cs: Seq<ChatCompletionChoice>, k: u32)
    ensures
        slot_args_of(step_choices(st, cs).0, k) == slot_args_of(st, k) + choices_slot_arguments(cs, k),
    decreases cs.len(),
{
    if cs.len() == 0 {
        assert(slot_args_of(st, k) + Seq::<char>::empty() =~= slot_args_of(st, k));
    } else {
        lemma_choices_args(st, cs.drop_last(), k);
        let s1 = step_choices(st, cs.drop_last()).0;
        lemma_choice_args(s1, cs.last(), k);
        let tail = if is_followed_choice(cs.last()) {
            slot_arguments(choice_tool_deltas(cs.last()), k)
        } else {
            Seq::empty()
        };
        assert(slot_args_of(st, k) + choices_slot_arguments(cs.drop_last(), k) + tail =~= slot_args_of(st, k)
            + (choices_slot_arguments(cs.drop_last(), k) + tail));
    }
}

/// The arguments of each tool call grow, chunk by chunk, by exactly the
/// argument pieces that the followed choices of the chunk carry for its slot,
/// in order.
pub proof fn law_chunk_arguments(st: StateView, chunk: ChatCompletionChunk, k: u32)
    ensures
        slot_args_of(apply_chunk_spec(st, chunk).0, k) == slot_args_of(st, k) + choices_slot_arguments(
            chunk.choices@,
            k,
        ),
{
    lemma_choices_args(record_chunk_header(st, chunk), chunk.choices@, k);
}

/// The members of `keys` below `n`.
pub open spec fn keys_below(keys: Set<u32>, n: nat) -> Set<u32> {
    Set::new(|k: u32| keys.contains(k) && k < n)
}

/// Whether `s` lists the members of `keys` below `n` in increasing order.
pub open spec fn is_bounded_order(s: Seq<u32>, keys: Set<u32>, n: nat) -> bool {
    &&& is_key_order(s, keys_below(keys, n))
    &&& forall|i: int| 0 <= i < s.len() ==> s[i] < n
}

proof fn lemma_key_order_below(keys: Set<u32>, n: nat)
    ensures
        exists|s: Seq<u32>| is_bounded_order(s, keys, n),
    decreases n,
{
    if n == 0 {
        let s = Seq::<u32>::empty();
        assert(is_bounded_order(s, keys, n));
    } else {
        lemma_key_order_below(keys, (n - 1) as nat);
        let m: nat = (n - 1) as nat;
        let s0 = choose|s: Seq<u32>| is_bounded_order(s, keys, m);
        if n - 1 <= u32::MAX && keys.contains((n - 1) as u32) {
            let x = (n - 1) as u32;
            let s = s0.push(x);
            assert forall|k: u32| keys_below(keys, n).contains(k) <==> s.contains(k) by {
                if keys_below(keys, n).contains(k) {
                    if k == x {
                        assert(s[s.len() - 1] == x);
                    } else {
                        assert(keys_below(keys, (n - 1) as nat).contains(k));
                        assert(s0.contains(k));
                        let i = choose|i: int| 0 <= i < s0.len() && s0[i] == k;
                        assert(s[i] == k);
                    }
                }
                if s.contains(k) {
                    let i = choose|i: int| 0 <= i < s.len() && s[i] == k;
                    if i < s0.len() {
                        assert(s0[i] == k);
                        assert(s0.contains(k));
                    }
                }
            }
            assert(is_bounded_order(s, keys, n));
        } else {
            assert forall|k: u32| keys_below(keys, n).contains(k) <==> s0.contains(k) by {
                if keys_below(keys, n).contains(k) {
                    assert(keys_below(keys, (n - 1) as nat).contains(k));
                }
                if s0.contains(k) {
                    let i = choose|i: int| 0 <= i < s0.len() && s0[i] == k;
                    assert(s0[i] < n - 1);
                }
            }
            assert(is_bounded_order(s0, keys, n));
        }
    }
}

/// Every set of slots has its increasing listing, so the closing events list
/// each tool call exactly once, in increasing slot order.
pub proof fn law_key_order_exists(keys: Set<u32>)
    ensures
        is_key_order(key_order(keys), keys),
{
    lemma_key_order_below(keys, 0x1_0000_0000);
    assert(keys_below(keys, 0x1_0000_0000) =~= keys);
    let s = choose|s: Seq<u32>| is_bounded_order(s, keys, 0x1_0000_0000);
    assert(is_key_order(s, keys));
}

/// The closing events end with the one completion, which carries the response
/// id (empty when none came), the usage, and ends the turn exactly when there
/// was no tool call; every event before it hands out an item.
pub proof fn law_terminal_events_close_once(st: StateView)
    ensures
        ({
            let e = terminal_events_spec(st);
            &&& e.len() >= 1
            &&& e.last() == ResponseEventView::Completed {
                response_id: match st.response_id {
                    Some(r) => r,
                    None => Seq::empty(),
                },
                token_usage: st.usage,
                end_turn: Some(st.tool_calls.is_empty()),
            }
            &&& forall|i: int| 0 <= i < e.len() - 1 ==> #[trigger] e[i] is OutputItemDone
        }),
{
    let e = terminal_events_spec(st);
    let text_events = if st.text.len() > 0 {
        seq![ResponseEventView::OutputItemDone(crate::chat_stream::assistant_message(st.text))]
    } else {
        Seq::empty()
    };
    let call_events = key_order(st.tool_calls.dom()).map_values(
        |k: u32| ResponseEventView::OutputItemDone(tool_call_item(k, st.tool_calls[k])),
    );
    assert forall|i: int| 0 <= i < e.len() - 1 implies #[trigger] e[i] is OutputItemDone by {
        if i < text_events.len() {
            assert(e[i] == text_events[i]);
        } else {
            assert(e[i] == call_events[i - text_events.len()]);
        }
    }
}

/// Once the text and tool calls are handed out, closing again gives the
/// completion alone, which ends the turn.
pub proof fn law_terminal_events_after_drain(st: StateView)
    ensures
        terminal_events_spec(drained(st)) == seq![
            ResponseEventView::Completed {
                response_id: match st.response_id {
                    Some(r) => r,
                    None => Seq::empty(),
                },
                token_usage: st.usage,
                end_turn: Some(true),
            },
        ],
{
    let d = drained(st);
    law_key_order_exists(d.tool_calls.dom());
    let ko = key_order(d.tool_calls.dom());
    if ko.len() > 0 {
        assert(ko.contains(ko[0]));
    }
    assert(d.tool_calls.is_empty());
    assert(terminal_events_spec(d) =~= seq![
        ResponseEventView::Completed {
            response_id: match st.response_id {
                Some(r) => r,
                None => Seq::empty(),
            },
            token_usage: st.usage,
            end_turn: Some(true),
        },
    ]);
}

/// Whether an output is a successful delta.
pub open spec fn is_ok_delta(o: Result<ResponseEventView, Seq<char>>) -> bool {
    match o {
        Ok(ev) => is_nonempty_delta(ev),
        Err(_) => false,
    }
}

/// Whether an output is the successful completion.
pub open spec fn is_ok_completion(o: Result<ResponseEventView, Seq<char>>) -> bool {
    match o {
        Ok(ev) => ev is Completed,
        Err(_) => false,
    }
}

/// Whether an output hands out an item.
pub open spec fn is_ok_item(o: Result<ResponseEventView, Seq<char>>) -> bool {
    match o {
        Ok(ev) => ev is OutputItemDone,
        Err(_) => false,
    }
}

/// Whether every output is a successful delta with a non-empty payload.
pub open spec fn all_ok_deltas(o: Seq<Result<ResponseEventView, Seq<char>>>) -> bool {
    forall|i: int| 0 <= i < o.len() ==> is_ok_delta(#[trigger] o[i])
}

/// Whether outputs close a stream: one error alone, or items handed out
/// followed by the completion.
pub open spec fn is_closing(t: Seq<Result<ResponseEventView, Seq<char>>>) -> bool {
    ||| t.len() == 1 && t[0] is Err
    ||| t.len() >= 1 && is_ok_completion(t.last()) && forall|i: int| 0 <= i < t.len() - 1 ==> is_ok_item(#[trigger] t[i])
}

/// Whether the first `k` outputs are deltas and the rest close the stream.
pub open spec fn deltas_then_close(o: Seq<Result<ResponseEventView, Seq<char>>>, k: int) -> bool {
    &&& 0 <= k <= o.len()
    &&& all_ok_deltas(o.take(k))
    &&& is_closing(o.skip(k))
}

/// Whether outputs are deltas followed by a closing.
pub open spec fn closed_stream(o: Seq<Result<ResponseEventView, Seq<char>>>) -> bool {
    exists|k: int| deltas_then_close(o, k)
}

proof fn lemma_deltas_as_outputs(e: Seq<ResponseEventView>)
    requires
        all_deltas(e),
    ensures
        all_ok_deltas(as_outputs(e)),
{
    assert forall|i: int| 0 <= i < as_outputs(e).len() implies is_ok_delta(#[trigger] as_outputs(e)[i]) by {
        assert(is_nonempty_delta(e[i]));
    }
}

proof fn lemma_terminal_closing(st: StateView)
    ensures
        is_closing(as_outputs(terminal_events_spec(st))),
{
    law_terminal_events_close_once(st);
    let t = terminal_events_spec(st);
    let o = as_outputs(t);
    assert(o.last() == Ok::<ResponseEventView, Seq<char>>(t.last()));
    assert forall|i: int| 0 <= i < o.len() - 1 implies is_ok_item(#[trigger] o[i]) by {
        assert(t[i] is OutputItemDone);
    }
}

proof fn lemma_closing_alone(o: Seq<Result<ResponseEventView, Seq<char>>>)
    requires
        is_closing(o),
    ensures
        closed_stream(o),
{
    assert(o.take(0) =~= Seq::<Result<ResponseEventView, Seq<char>>>::empty());
    assert(o.skip(0) =~= o);
    assert(deltas_then_close(o, 0));
}

proof fn lemma_prefix_closed(a: Seq<Result<ResponseEventView, Seq<char>>>, b: Seq<Result<ResponseEventView, Seq<char>>>)
    requires
        all_ok_deltas(a),
        closed_stream(b),
    ensures
        closed_stream(a + b),
{
    let k = choose|k: int| deltas_then_close(b, k);
    let o = a + b;
    let j = a.len() + k;
    assert(o.skip(j) =~= b.skip(k));
    assert(o.take(j) =~= a + b.take(k));
    assert forall|i: int| 0 <= i < o.take(j).len() implies is_ok_delta(#[trigger] o.take(j)[i]) by {
        if i < a.len() {
            assert(o.take(j)[i] == a[i]);
        } else {
            assert(o.take(j)[i] == b.take(k)[i - a.len()]);
        }
    }
    assert(deltas_then_close(o, j));
}

proof fn lemma_ok_deltas_append(a: Seq<Result<ResponseEventView, Seq<char>>>, b: Seq<Result<ResponseEventView, Seq<char>>>)
    requires
        all_ok_deltas(a),
        all_ok_deltas(b),
    ensures
        all_ok_deltas(a + b),
{
    assert forall|i: int| 0 <= i < (a + b).len() implies is_ok_delta(#[trigger] (a + b)[i]) by {
        if i < a.len() {
            assert((a + b)[i] == a[i]);
        } else {
            assert((a + b)[i] == b[i - a.len()]);
        }
    }
}

/// A step that leaves the stream open sends only deltas with non-empty
/// payloads; a step that ends it sends such deltas and then either one error
/// alone, or handed-out items followed by the completion.
pub proof fn law_sse_step_outputs(st: StateView, input: SseInput)
    ensures
        ({
            let (s, o, done) = sse_step_spec(st, input);
            &&& !done ==> all_ok_deltas(o)
            &&& done ==> closed_stream(o)
        }),
{
    let (s, o, done) = sse_step_spec(st, input);
    match input {
        SseInput::Closed => {
            if st.finished {
                lemma_terminal_closing(st);
            }
            lemma_closing_alone(o);
        },
        SseInput::Event { data, chunk } => {
            if crate::text::trim(data@) == crate::chat_stream::done_marker() {
                lemma_terminal_closing(mark_finished(st));
                lemma_closing_alone(o);
            } else {
                match chunk {
                    None => {},
                    Some(c) => {
                        law_chunk_text_and_finish(st, c);
                        let (s1, e1) = apply_chunk_spec(st, c);
                        lemma_deltas_as_outputs(e1);
                        if s1.finished {
                            let t = terminal_events_spec(s1);
                            lemma_terminal_closing(s1);
                            lemma_closing_alone(as_outputs(t));
                            assert(as_outputs(e1 + t) =~= as_outputs(e1) + as_outputs(t));
                            lemma_prefix_closed(as_outputs(e1), as_outputs(t));
                        }
                    },
                }
            }
        },
        _ => {
            lemma_closing_alone(o);
        },
    }
}

/// The stream read observation by observation until a step ends it: the
/// state, everything sent, and whether it ended. Observations after the end
/// are never read.
pub open spec fn sse_run(st: StateView, inputs: Seq<SseInput>) -> (StateView, Seq<Result<ResponseEventView, Seq<char>>>, bool)
    decreases inputs.len(),
{
    if inputs.len() == 0 {
        (st, Seq::empty(), false)
    } else {
        let (s1, o1, d1) = sse_run(st, inputs.drop_last());
        if d1 {
            (s1, o1, true)
        } else {
            let (s2, o2, d2) = sse_step_spec(s1, inputs.last());
            (s2, o1 + o2, d2)
        }
    }
}

/// Over a whole stream, what is sent is deltas with non-empty payloads, and,
/// once the stream ends, exactly one closing after them: one error, or the
/// handed-out items followed by the one completion. Nothing follows it.
pub proof fn law_sse_run_outputs(st: StateView, inputs: Seq<SseInput>)
    ensures
        ({
            let (s, o, done) = sse_run(st, inputs);
            &&& !done ==> all_ok_deltas(o)
            &&& done ==> closed_stream(o)
        }),
    decreases inputs.len(),
{
    if inputs.len() > 0 {
        law_sse_run_outputs(st, inputs.drop_last());
        let (s1, o1, d1) = sse_run(st, inputs.drop_last());
        if !d1 {
            law_sse_step_outputs(s1, inputs.last());
            let (s2, o2, d2) = sse_step_spec(s1, inputs.last());
            if d2 {
                lemma_prefix_closed(o1, o2);
            } else {
                lemma_ok_deltas_append(o1, o2);
            }
        }
    } else {
        assert(all_ok_deltas(Seq::<Result<ResponseEventView, Seq<char>>>::empty()));
    }
}

/// Whether an observation is an event whose data neither reads as a chunk
/// nor is the end marker.
pub open spec fn is_unreadable(input: SseInput) -> bool {
    match input {
        SseInput::Event { data, chunk } => chunk is None && crate::text::trim(data@)
            != crate::chat_stream::done_marker(),
        _ => false,
    }
}

/// The observations that are not unreadable events, in order.
pub open spec fn readable_inputs(inputs: Seq<SseInput>) -> Seq<SseInput>
    decreases inputs.len(),
{
    if inputs.len() == 0 {
        Seq::empty()
    } else if is_unreadable(inputs.last()) {
        readable_inputs(inputs.drop_last())
    } else {
        readable_inputs(inputs.drop_last()).push(inputs.last())
    }
}

proof fn lemma_sse_run_readable(st: StateView, inputs: Seq<SseInput>)
    ensures
        sse_run(st, inputs) == sse_run(st, readable_inputs(inputs)),
    decreases inputs.len(),
{
    if inputs.len() > 0 {
        let p = inputs.drop_last();
        let x = inputs.last();
        lemma_sse_run_readable(st, p);
        let (s1, o1, d1) = sse_run(st, p);
        if is_unreadable(x) {
            if !d1 {
                assert(o1 + Seq::<Result<ResponseEventView, Seq<char>>>::empty() =~= o1);
            }
        } else {
            let r = readable_inputs(p).push(x);
            assert(r.drop_last() =~= readable_inputs(p));
            assert(r.last() == x);
        }
    }
}

/// Events whose data is neither a chunk nor the end marker change nothing:
/// two streams that differ only in such events, wherever they stand, leave
/// the same state, send the same outputs and end alike.
pub proof fn law_unreadable_events_change_nothing(st: StateView, a: Seq<SseInput>, b: Seq<SseInput>)
    requires
        readable_inputs(a) == readable_inputs(b),
    ensures
        sse_run(st, a) == sse_run(st, b),
{
    lemma_sse_run_readable(st, a);
    lemma_sse_run_readable(st, b);
}

/// The choices of the first completion, in order.
pub open spec fn followed_choices(cs: Seq<ChatCompletionChoice>) -> Seq<ChatCompletionChoice>
    decreases cs.len(),
{
    if cs.len() == 0 {
        Seq::empty()
    } else {
        let rest = followed_choices(cs.drop_last());
        if is_followed_choice(cs.last()) {
            rest.push(cs.last())
        } else {
            rest
        }
    }
}

proof fn lemma_followed_choices(st: StateView, cs: Seq<ChatCompletionChoice>)
    ensures
        step_choices(st, cs) == step_choices(st, followed_choices(cs)),
    decreases cs.len(),
{
    if cs.len() > 0 {
        lemma_followed_choices(st, cs.drop_last());
        let f = followed_choices(cs);
        let (s1, e1) = step_choices(st, cs.drop_last());
        if is_followed_choice(cs.last()) {
            assert(f.drop_last() =~= followed_choices(cs.drop_last()));
            assert(f.last() == cs.last());
        } else {
            assert(e1 + Seq::<ResponseEventView>::empty() =~= e1);
        }
    }
}

/// Choices of other completions than the first change nothing and announce
/// nothing: the chunk without them has the same effect.
pub proof fn law_other_choices_ignored(st: StateView, chunk: ChatCompletionChunk, kept: ChatCompletionChunk)
    requires
        kept.id == chunk.id,
        kept.usage == chunk.usage,
        kept.choices@ == followed_choices(chunk.choices@),
    ensures
        apply_chunk_spec(st, kept) == apply_chunk_spec(st, chunk),
{
    lemma_followed_choices(record_chunk_header(st, chunk), chunk.choices@);
}

/// The state after chunks, one after the other, and all the events they give.
pub open spec fn run_chunks(st: StateView, chunks: Seq<ChatCompletionChunk>) -> (StateView, Seq<ResponseEventView>)
    decreases chunks.len(),
{
    if chunks.len() == 0 {
        (st, Seq::empty())
    } else {
        let (s1, e1) = run_chunks(st, chunks.drop_last());
        let (s2, e2) = apply_chunk_spec(s1, chunks.last());
        (s2, e1 + e2)
    }
}

/// The argument piece a tool-call delta announces, with its slot, if it carries arguments.
pub open spec fn piece_of(d: ChatCompletionToolCallDelta) -> Seq<(u32, Seq<char>)> {
    if delta_arguments(d).len() > 0 {
        seq![(delta_slot(d), delta_arguments(d))]
    } else {
        Seq::empty()
    }
}

/// The argument pieces of tool-call deltas, in order.
pub open spec fn delta_pieces(ds: Seq<ChatCompletionToolCallDelta>) -> Seq<(u32, Seq<char>)>
    decreases ds.len(),
{
    if ds.len() == 0 {
        Seq::empty()
    } else {
        delta_pieces(ds.drop_last()) + piece_of(ds.last())
    }
}

/// The argument pieces of the followed choices, in order.
pub open spec fn choices_pieces(cs: Seq<ChatCompletionChoice>) -> Seq<(u32, Seq<char>)>
    decreases cs.len(),
{
    if cs.len() == 0 {
        Seq::empty()
    } else {
        choices_pieces(cs.drop_last()) + if is_followed_choice(cs.last()) {
            delta_pieces(choice_tool_deltas(cs.last()))
        } else {
            Seq::empty()
        }
    }
}

/// The argument pieces of a run of chunks, in order.
pub open spec fn run_pieces(chunks: Seq<ChatCompletionChunk>) -> Seq<(u32, Seq<char>)>
    decreases chunks.len(),
{
    if chunks.len() == 0 {
        Seq::empty()
    } else {
        run_pieces(chunks.drop_last()) + choices_pieces(chunks.last().choices@)
    }
}

/// The payloads of the argument deltas among events, in order.
pub open spec fn announced_arguments(e: Seq<ResponseEventView>) -> Seq<Seq<char>>
    decreases e.len(),
{
    if e.len() == 0 {
        Seq::empty()
    } else {
        announced_arguments(e.drop_last()) + match e.last() {
            ResponseEventView::ToolCallInputDelta { delta, .. } => seq![delta],
            _ => Seq::empty(),
        }
    }
}

/// The payloads of pieces, in order.
pub open spec fn piece_payloads(p: Seq<(u32, Seq<char>)>) -> Seq<Seq<char>> {
    p.map_values(|x: (u32, Seq<char>)| x.1)
}

/// The concatenated payloads of the pieces for slot `k`.
pub open spec fn slot_text(p: Seq<(u32, Seq<char>)>, k: u32) -> Seq<char>
    decreases p.len(),
{
    if p.len() == 0 {
        Seq::empty()
    } else {
        slot_text(p.drop_last(), k) + if p.last().0 == k {
            p.last().1
        } else {
            Seq::empty()
        }
    }
}

proof fn lemma_announced_arguments_append(a: Seq<ResponseEventView>, b: Seq<ResponseEventView>)
    ensures
        announced_arguments(a + b) == announced_arguments(a) + announced_arguments(b),
    decreases b.len(),
{
    if b.len() == 0 {
        assert(a + b =~= a);
        assert(announced_arguments(a) + announced_arguments(b) =~= announced_arguments(a));
    } else {
        lemma_announced_arguments_append(a, b.drop_last());
        assert((a + b).drop_last() =~= a + b.drop_last());
        assert((a + b).last() == b.last());
        let t = match b.last() {
            ResponseEventView::ToolCallInputDelta { delta, .. } => seq![delta],
            _ => Seq::<Seq<char>>::empty(),
        };
        assert(announced_arguments(a) + announced_arguments(b.drop_last()) + t =~= announced_arguments(a)
            + (announced_arguments(b.drop_last()) + t));
    }
}

proof fn lemma_slot_text_append(a: Seq<(u32, Seq<char>)>, b: Seq<(u32, Seq<char>)>, k: u32)
    ensures
        slot_text(a + b, k) == slot_text(a, k) + slot_text(b, k),
    decreases b.len(),
{
    if b.len() == 0 {
        assert(a + b =~= a);
        assert(slot_text(a, k) + slot_text(b, k) =~= slot_text(a, k));
    } else {
        lemma_slot_text_append(a, b.drop_last(), k);
        assert((a + b).drop_last() =~= a + b.drop_last());
        assert((a + b).last() == b.last());
        let t = if b.last().0 == k {
            b.last().1
        } else {
            Seq::<char>::empty()
        };
        assert(slot_text(a, k) + slot_text(b.drop_last(), k) + t =~= slot_text(a, k) + (slot_text(b.drop_last(), k)
            + t));
    }
}

proof fn lemma_piece_payloads_append(a: Seq<(u32, Seq<char>)>, b: Seq<(u32, Seq<char>)>)
    ensures
        piece_payloads(a + b) == piece_payloads(a) + piece_payloads(b),
{
    assert(piece_payloads(a + b) =~= piece_payloads(a) + piece_payloads(b));
}

proof fn lemma_single_event_arguments(ev: ResponseEventView)
    ensures
        announced_arguments(seq![ev]) == match ev {
            ResponseEventView::ToolCallInputDelta { delta, .. } => seq![delta],
            _ => Seq::<Seq<char>>::empty(),
        },
{
    let x = seq![ev];
    assert(x.len() == 1);
    assert(x.drop_last() =~= Seq::<ResponseEventView>::empty());
    assert(announced_arguments(x.drop_last()) == Seq::<Seq<char>>::empty());
    assert(x.last() == ev);
    match ev {
        ResponseEventView::ToolCallInputDelta { delta, .. } => {
            assert(Seq::<Seq<char>>::empty() + seq![delta] =~= seq![delta]);
        },
        _ => {
            assert(Seq::<Seq<char>>::empty() + Seq::<Seq<char>>::empty() =~= Seq::<Seq<char>>::empty());
        },
    }
}

proof fn lemma_tool_call_pieces(st: StateView, d: ChatCompletionToolCallDelta)
    ensures
        announced_arguments(step_tool_call(st, d).1) == piece_payloads(piece_of(d)),
{
    let e = step_tool_call(st, d).1;
    if e.len() == 1 {
        lemma_single_event_arguments(e[0]);
        assert(e =~= seq![e[0]]);
        assert(piece_payloads(piece_of(d)) =~= seq![delta_arguments(d)]);
    } else {
        assert(piece_payloads(piece_of(d)) =~= Seq::<Seq<char>>::empty());
    }
}

proof fn lemma_tool_calls_pieces(st: StateView, ds: Seq<ChatCompletionToolCallDelta>)
    ensures
        announced_arguments(step_tool_calls(st, ds).1) == piece_payloads(delta_pieces(ds)),
    decreases ds.len(),
{
    if ds.len() == 0 {
        assert(piece_payloads(delta_pieces(ds)) =~= Seq::<Seq<char>>::empty());
    } else {
        lemma_tool_calls_pieces(st, ds.drop_last());
        let (s1, e1) = step_tool_calls(st, ds.drop_last());
        lemma_tool_call_pieces(s1, ds.last());
        let e2 = step_tool_call(s1, ds.last()).1;
        lemma_announced_arguments_append(e1, e2);
        lemma_piece_payloads_append(delta_pieces(ds.drop_last()), piece_of(ds.last()));
    }
}

proof fn lemma_choice_pieces(st: StateView, c: ChatCompletionChoice)
    ensures
        announced_arguments(step_choice(st, c).1) == piece_payloads(
            if is_followed_choice(c) {
                delta_pieces(choice_tool_deltas(c))
            } else {
                Seq::empty()
            },
        ),
{
    if !is_followed_choice(c) {
        assert(piece_payloads(Seq::<(u32, Seq<char>)>::empty()) =~= Seq::<Seq<char>>::empty());
    } else {
        let (s1, e1) = match choice_text(c) {
            Some(t) => (
                StateView {
                    response_id: st.response_id,
                    text: st.text + t,
                    tool_calls: st.tool_calls,
                    usage: st.usage,
                    finished: st.finished,
                },
                seq![ResponseEventView::OutputTextDelta(t)],
            ),
            None => (st, Seq::empty()),
        };
        lemma_tool_calls_pieces(s1, choice_tool_deltas(c));
        let e2 = step_tool_calls(s1, choice_tool_deltas(c)).1;
        lemma_announced_arguments_append(e1, e2);
        match choice_text(c) {
            Some(t) => {
                lemma_single_event_arguments(ResponseEventView::OutputTextDelta(t));
            },
            None => {},
        }
        assert(announced_arguments(e1) =~= Seq::<Seq<char>>::empty());
        assert(announced_arguments(e1) + announced_arguments(e2) =~= announced_arguments(e2));
    }
}

proof fn lemma_choices_pieces(st: StateView, cs: Seq<ChatCompletionChoice>)
    ensures
        announced_arguments(step_choices(st, cs).1) == piece_payloads(choices_pieces(cs)),
        forall|k: u32| choices_slot_arguments(cs, k) == slot_text(#[trigger] choices_pieces(cs), k),
    decreases cs.len(),
{
    if cs.len() == 0 {
        assert(piece_payloads(choices_pieces(cs)) =~= Seq::<Seq<char>>::empty());
    } else {
        lemma_choices_pieces(st, cs.drop_last());
        let (s1, e1) = step_choices(st, cs.drop_last());
        lemma_choice_pieces(s1, cs.last());
        let e2 = step_choice(s1, cs.last()).1;
        lemma_announced_arguments_append(e1, e2);
        let tail = if is_followed_choice(cs.last()) {
            delta_pieces(choice_tool_deltas(cs.last()))
        } else {
            Seq::empty()
        };
        lemma_piece_payloads_append(choices_pieces(cs.drop_last()), tail);
        assert forall|k: u32| choices_slot_arguments(cs, k) == slot_text(#[trigger] choices_pieces(cs), k) by {
            lemma_slot_text_append(choices_pieces(cs.drop_last()), tail, k);
            assert(choices_slot_arguments(cs.drop_last(), k) == slot_text(choices_pieces(cs.drop_last()), k));
            assert(choices_pieces(cs) == choices_pieces(cs.drop_last()) + tail);
            if is_followed_choice(cs.last()) {
                lemma_slot_arguments_pieces(choice_tool_deltas(cs.last()), k);
            } else {
                assert(tail =~= Seq::<(u32, Seq<char>)>::empty());
                assert(slot_text(tail, k) == Seq::<char>::empty());
                assert(choices_slot_arguments(cs.drop_last(), k) + Seq::<char>::empty() =~= choices_slot_arguments(
                    cs.drop_last(),
                    k,
                ));
            }
        }
    }
}

proof fn lemma_slot_arguments_pieces(ds: Seq<ChatCompletionToolCallDelta>, k: u32)
    ensures
        slot_arguments(ds, k) == slot_text(delta_pieces(ds), k),
    decreases ds.len(),
{
    if ds.len() > 0 {
        lemma_slot_arguments_pieces(ds.drop_last(), k);
        let p = piece_of(ds.last());
        lemma_slot_text_append(delta_pieces(ds.drop_last()), p, k);
        if p.len() == 1 {
            assert(p.drop_last() =~= Seq::<(u32, Seq<char>)>::empty());
            assert(slot_text(p.drop_last(), k) == Seq::<char>::empty());
            assert(p.last() == (delta_slot(ds.last()), delta_arguments(ds.last())));
            assert(slot_text(p, k) =~= if delta_slot(ds.last()) == k {
                delta_arguments(ds.last())
            } else {
                Seq::empty()
            });
        } else {
            assert(slot_text(delta_pieces(ds.drop_last()), k) + slot_text(p, k) =~= slot_text(delta_pieces(ds.drop_last()), k));
            assert(slot_arguments(ds.drop_last(), k) + Seq::<char>::empty() =~= slot_arguments(ds.drop_last(), k));
        }
    }
}

/// Over a run of chunks from the start: the accumulated text is exactly the
/// text announced; the argument deltas announced are exactly the argument
/// pieces of the chunks, in order; each slot's arguments are exactly the
/// pieces for that slot, in order; every event is a delta with a non-empty
/// payload; and the response is finished exactly when some chunk finished it.
pub proof fn law_run_accumulates(chunks: Seq<ChatCompletionChunk>)
    ensures
        ({
            let (s, e) = run_chunks(crate::chat_stream::initial_state(), chunks);
            &&& s.text == announced_text(e)
            &&& announced_arguments(e) == piece_payloads(run_pieces(chunks))
            &&& forall|k: u32| slot_args_of(s, k) == #[trigger] slot_text(run_pieces(chunks), k)
            &&& all_deltas(e)
        }),
    decreases chunks.len(),
{
    let st0 = crate::chat_stream::initial_state();
    if chunks.len() == 0 {
        assert(piece_payloads(run_pieces(chunks)) =~= Seq::<Seq<char>>::empty());
    } else {
        law_run_accumulates(chunks.drop_last());
        let (s1, e1) = run_chunks(st0, chunks.drop_last());
        let c = chunks.last();
        law_chunk_text_and_finish(s1, c);
        let (s2, e2) = apply_chunk_spec(s1, c);
        lemma_announced_text_append(e1, e2);
        lemma_announced_arguments_append(e1, e2);
        lemma_all_deltas_append(e1, e2);
        lemma_choices_pieces(record_chunk_header(s1, c), c.choices@);
        lemma_piece_payloads_append(run_pieces(chunks.drop_last()), choices_pieces(c.choices@));
        assert forall|k: u32| slot_args_of(s2, k) == #[trigger] slot_text(run_pieces(chunks), k) by {
            law_chunk_arguments(s1, c, k);
            lemma_slot_text_append(run_pieces(chunks.drop_last()), choices_pieces(c.choices@), k);
        }
    }
}


/// The call id a slot has after a tool-call delta: the one the delta gives,
/// else the one the slot had before, if any.
pub open spec fn known_call_id(st: StateView, d: ChatCompletionToolCallDelta) -> Option<Seq<char>> {
    match d.id {
        Some(id) => Some(id@),
        None => if st.tool_calls.contains_key(delta_slot(d)) {
            st.tool_calls[delta_slot(d)].id
        } else {
            None
        },
    }
}

/// A tool-call delta announces its arguments exactly when it carries some,
/// in one argument delta whose payload is those arguments and whose call id
/// is the slot's call id as known once the delta is merged (given now or in
/// an earlier delta); the slot keeps that call id.
pub proof fn law_argument_delta_carries_call_id(st: StateView, d: ChatCompletionToolCallDelta)
    ensures
        ({
            let (s, e) = step_tool_call(st, d);
            let k = delta_slot(d);
            &&& s.tool_calls.contains_key(k)
            &&& s.tool_calls[k].id == known_call_id(st, d)
            &&& e.len() == if delta_arguments(d).len() > 0 { 1int } else { 0int }
            &&& forall|i: int| 0 <= i < e.len() ==> {
                &&& #[trigger] e[i] matches ResponseEventView::ToolCallInputDelta { item_id, call_id, delta }
                &&& call_id == known_call_id(st, d)
                &&& delta == delta_arguments(d)
                &&& item_id == match known_call_id(st, d) {
                    Some(id) => id,
                    None => crate::chat_stream::tool_call_label(k),
                }
            }
        }),
{
}

/// The token usage of a report: each count is the reported one, zero when
/// absent, each taken on its own; the total is the reported total, or else
/// the sum of prompt and completion tokens held to the bounds of `i64`.
pub proof fn law_token_usage_counts(u: crate::chat_stream::ChatCompletionUsage)
    ensures
        ({
            let t = crate::chat_stream::token_usage_of(u);
            let input: i64 = match u.prompt_tokens { Some(n) => n, None => 0 };
            let output: i64 = match u.completion_tokens { Some(n) => n, None => 0 };
            let sum: int = input + output;
            &&& t.input_tokens == input
            &&& t.output_tokens == output
            &&& t.cached_input_tokens == match u.prompt_tokens_details {
                Some(p) => match p.cached_tokens { Some(n) => n, None => 0 },
                None => 0,
            }
            &&& t.reasoning_output_tokens == match u.completion_tokens_details {
                Some(c) => match c.reasoning_tokens { Some(n) => n, None => 0 },
                None => 0,
            }
            &&& t.total_tokens == match u.total_tokens {
                Some(n) => n as int,
                None => if sum > i64::MAX { i64::MAX as int } else if sum < i64::MIN { i64::MIN as int } else { sum },
            }
        }),
{
}

/// The closing events hand out, in order: the accumulated text as one
/// assistant message when there is any text; then one function call per
/// tool-call slot, slots in increasing order, each slot exactly once,
/// carrying the slot's accumulated arguments, its name and its call id (the
/// slot's label where none came); then the completion.
pub proof fn law_terminal_events_hand_out_everything(st: StateView)
    ensures
        ({
            let e = terminal_events_spec(st);
            let n: int = if st.text.len() > 0 { 1 } else { 0 };
            let ks = key_order(st.tool_calls.dom());
            &&& e.len() == n + ks.len() + 1
            &&& forall|i: int, j: int| 0 <= i < j < ks.len() ==> ks[i] < ks[j]
            &&& forall|k: u32| st.tool_calls.contains_key(k) <==> ks.contains(k)
            &&& st.text.len() > 0 ==> e[0] == ResponseEventView::OutputItemDone(
                crate::model::ResponseItemView::Message {
                    id: None,
                    role: "assistant"@,
                    content: seq![crate::model::ContentItemView::OutputText { text: st.text }],
                },
            )
            &&& forall|i: int| 0 <= i < ks.len() ==> {
                let p = st.tool_calls[ks[i]];
                &&& #[trigger] e[n + i] matches ResponseEventView::OutputItemDone(
                    crate::model::ResponseItemView::FunctionCall { name, arguments, call_id, .. },
                )
                &&& arguments == p.arguments
                &&& name == match p.name {
                    Some(x) => x,
                    None => crate::chat_stream::tool_call_label(ks[i]),
                }
                &&& call_id == match p.id {
                    Some(x) => x,
                    None => crate::chat_stream::tool_call_label(ks[i]),
                }
            }
        }),
{
    law_key_order_exists(st.tool_calls.dom());
    let e = terminal_events_spec(st);
    let n: int = if st.text.len() > 0 { 1 } else { 0 };
    let ks = key_order(st.tool_calls.dom());
    let text_events = if st.text.len() > 0 {
        seq![ResponseEventView::OutputItemDone(crate::chat_stream::assistant_message(st.text))]
    } else {
        Seq::empty()
    };
    let call_events = ks.map_values(
        |k: u32| ResponseEventView::OutputItemDone(tool_call_item(k, st.tool_calls[k])),
    );
    assert(text_events.len() == n);
    assert forall|i: int| 0 <= i < ks.len() implies {
        let p = st.tool_calls[ks[i]];
        &&& #[trigger] e[n + i] matches ResponseEventView::OutputItemDone(
            crate::model::ResponseItemView::FunctionCall { name, arguments, call_id, .. },
        )
        &&& arguments == p.arguments
        &&& name == match p.name {
            Some(x) => x,
            None => crate::chat_stream::tool_call_label(ks[i]),
        }
        &&& call_id == match p.id {
            Some(x) => x,
            None => crate::chat_stream::tool_call_label(ks[i]),
        }
    } by {
        assert(e[n + i] == call_events[i]);
    }
    if st.text.len() > 0 {
        assert(e[0] == text_events[0]);
    }
    assert forall|i: int, j: int| 0 <= i < j < ks.len() implies ks[i] < ks[j] by {
        assert(crate::chat_stream::strictly_increasing(ks));
    }
}

} // verus!
