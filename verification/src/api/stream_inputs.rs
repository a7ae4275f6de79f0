//! What a translated stream sends of the arguments of tool calls.
use vstd::prelude::*;
use crate::api::stream::{
    call_position, call_step, choice_deltas, choice_text, choices_run, chunk_choices, chunk_step,
    delta_arguments, delta_index, delta_name, initial_stream, lemma_call_position,
    lemma_call_position_first, lemma_call_step, merged_call, reason_step, started_call, text_step,
    tool_step, tools_run, usage_step, EventView, OpenAIStreamChoice, OpenAIStreamChunk,
    OpenAIStreamToolCallDelta, StreamView,
};
use crate::api::stream_laws::stream_run;

verus! {

/// The arguments that were sent in a block.
pub open spec fn streamed_input(es: Seq<EventView>, block: nat) -> Seq<char>
    decreases es.len(),
{
    if es.len() == 0 {
        Seq::empty()
    } else {
        let before = streamed_input(es.drop_last(), block);
        match es.last() {
            EventView::InputDelta { index, partial_json } => if index == block {
                before + partial_json
            } else {
                before
            },
            _ => before,
        }
    }
}

/// The arguments that came for the call with an index.
pub open spec fn args_for(ds: Seq<OpenAIStreamToolCallDelta>, k: usize) -> Seq<char>
    decreases ds.len(),
{
    if ds.len() == 0 {
        Seq::empty()
    } else if delta_index(ds.last()) == k {
        args_for(ds.drop_last(), k) + delta_arguments(ds.last())
    } else {
        args_for(ds.drop_last(), k)
    }
}

/// Whether a delta came for the call with an index.
pub open spec fn mentioned(ds: Seq<OpenAIStreamToolCallDelta>, k: usize) -> bool
    decreases ds.len(),
{
    ds.len() > 0 && (delta_index(ds.last()) == k || mentioned(ds.drop_last(), k))
}

/// Whether the first delta for the call with an index carries its name.
pub open spec fn named_first(ds: Seq<OpenAIStreamToolCallDelta>, k: usize) -> bool
    decreases ds.len(),
{
    ds.len() > 0 ==> {
        &&& named_first(ds.drop_last(), k)
        &&& delta_index(ds.last()) == k && !mentioned(ds.drop_last(), k) ==> delta_name(
            ds.last(),
        ).len() > 0
    }
}

/// The tool call deltas of choices, in order.
pub open spec fn choices_deltas(cs: Seq<OpenAIStreamChoice>) -> Seq<OpenAIStreamToolCallDelta>
    decreases cs.len(),
{
    if cs.len() == 0 {
        Seq::empty()
    } else {
        choices_deltas(cs.drop_last()) + choice_deltas(cs.last())
    }
}

/// The tool call deltas of chunks, in order.
pub open spec fn chunks_deltas(chunks: Seq<OpenAIStreamChunk>) -> Seq<OpenAIStreamToolCallDelta>
    decreases chunks.len(),
{
    if chunks.len() == 0 {
        Seq::empty()
    } else {
        chunks_deltas(chunks.drop_last()) + choices_deltas(chunk_choices(chunks.last()))
    }
}

/// How far a translation has sent the arguments of the call with an index, after the deltas `ds`
/// and with the events `es`.
spec fn sent(
    v: StreamView,
    es: Seq<EventView>,
    ds: Seq<OpenAIStreamToolCallDelta>,
    k: usize,
) -> bool {
    let p = call_position(v.calls, k);
    &&& forall|b: nat| v.next <= b ==> #[trigger] streamed_input(es, b) == Seq::<char>::empty()
    &&& forall|i: int| 0 <= i < v.calls.len() ==> (#[trigger] v.calls[i]).block < v.next
    &&& forall|i: int, j: int|
        0 <= i < j < v.calls.len() ==> (#[trigger] v.calls[i]).block != (
        #[trigger] v.calls[j]).block
    &&& p < v.calls.len() <==> mentioned(ds, k)
    &&& p < v.calls.len() ==> v.calls[p].started && streamed_input(es, v.calls[p].block)
        == args_for(ds, k)
}

proof fn lemma_input_push(es: Seq<EventView>, e: EventView, block: nat)
    ensures
        streamed_input(es.push(e), block) == match e {
            EventView::InputDelta { index, partial_json } => if index == block {
                streamed_input(es, block) + partial_json
            } else {
                streamed_input(es, block)
            },
            _ => streamed_input(es, block),
        },
{
    assert(es.push(e).drop_last() =~= es);
}

proof fn lemma_input_concat(a: Seq<EventView>, b: Seq<EventView>, block: nat)
    ensures
        streamed_input(a + b, block) == streamed_input(a, block) + streamed_input(b, block),
    decreases b.len(),
{
    if b.len() == 0 {
        assert(a + b =~= a);
        assert(streamed_input(a, block) + Seq::<char>::empty() =~= streamed_input(a, block));
    } else {
        lemma_input_concat(a, b.drop_last(), block);
        assert(a + b =~= (a + b.drop_last()).push(b.last()));
        lemma_input_push(a + b.drop_last(), b.last(), block);
        assert(streamed_input(a + b, block) =~= streamed_input(a, block) + streamed_input(
            b,
            block,
        ));
    }
}

proof fn lemma_args_unmentioned(ds: Seq<OpenAIStreamToolCallDelta>, k: usize)
    requires
        !mentioned(ds, k),
    ensures
        args_for(ds, k) == Seq::<char>::empty(),
    decreases ds.len(),
{
    if ds.len() > 0 {
        lemma_args_unmentioned(ds.drop_last(), k);
    }
}

/// What a tool call delta sends in each block.
proof fn lemma_tool_input(v: StreamView, d: OpenAIStreamToolCallDelta, fresh: Seq<char>, b: nat)
    ensures
        ({
            let (w, closing) = call_step(v, delta_index(d));
            let p = call_position(w.calls, delta_index(d));
            let c = started_call(merged_call(w.calls[p], d), fresh);
            streamed_input(tool_step(v, d, fresh).1, b) == if c.started && c.block == b {
                delta_arguments(d)
            } else {
                Seq::<char>::empty()
            }
        }),
{
    let (w, closing) = call_step(v, delta_index(d));
    let p = call_position(w.calls, delta_index(d));
    let before = merged_call(w.calls[p], d);
    let c = started_call(before, fresh);
    let none = Seq::<EventView>::empty();
    assert(streamed_input(none, b) == Seq::<char>::empty());
    assert(streamed_input(closing, b) == Seq::<char>::empty()) by {
        if closing.len() > 0 {
            assert(closing =~= none.push(closing[0]));
            lemma_input_push(none, closing[0], b);
        }
    }
    let start = EventView::ToolStart { index: c.block, id: c.id, name: c.name };
    lemma_input_push(closing, start, b);
    let starting = if c.started && !before.started {
        closing.push(start)
    } else {
        closing
    };
    let input = EventView::InputDelta { index: c.block, partial_json: delta_arguments(d) };
    lemma_input_push(starting, input, b);
    assert(Seq::<char>::empty() + delta_arguments(d) =~= delta_arguments(d));
    if delta_arguments(d).len() == 0 {
        assert(delta_arguments(d) =~= Seq::empty());
    }
}

proof fn lemma_tool_sent(
    v: StreamView,
    es: Seq<EventView>,
    ds: Seq<OpenAIStreamToolCallDelta>,
    k: usize,
    d: OpenAIStreamToolCallDelta,
    fresh: Seq<char>,
)
    requires
        sent(v, es, ds, k),
        named_first(ds.push(d), k),
    ensures
        sent(tool_step(v, d, fresh).0, es + tool_step(v, d, fresh).1, ds.push(d), k),
{
    let index = delta_index(d);
    let (w, closing) = call_step(v, index);
    lemma_call_step(v, index);
    lemma_call_position_first(v.calls, index);
    lemma_call_position_first(v.calls, k);
    let q = call_position(w.calls, index);
    let before = merged_call(w.calls[q], d);
    let c = started_call(before, fresh);
    let (x, more) = tool_step(v, d, fresh);
    assert(x.calls == w.calls.update(q, c));
    assert(c.block == w.calls[q].block && c.index == w.calls[q].index);
    assert(ds.push(d).drop_last() =~= ds);
    let p = call_position(v.calls, k);
    assert forall|b: nat| x.next <= b implies #[trigger] streamed_input(es + more, b) == Seq::<
        char,
    >::empty() by {
        lemma_input_concat(es, more, b);
        lemma_tool_input(v, d, fresh, b);
        assert(c.block < x.next);
        assert(Seq::<char>::empty() + Seq::<char>::empty() =~= Seq::<char>::empty());
    }
    if index == k {
        if p == v.calls.len() {
            lemma_args_unmentioned(ds, k);
            assert(w.calls[q].block == v.next);
            assert(before.name =~= delta_name(d));
        }
        lemma_call_position(x.calls, k, q);
        lemma_input_concat(es, more, c.block);
        lemma_tool_input(v, d, fresh, c.block);
        assert(streamed_input(es, c.block) == args_for(ds, k));
    } else {
        if p < v.calls.len() {
            lemma_call_position(x.calls, k, p);
            let b = v.calls[p].block;
            assert(q != p);
            lemma_input_concat(es, more, b);
            lemma_tool_input(v, d, fresh, b);
            assert(c.block != b);
            assert(streamed_input(es, b) + Seq::<char>::empty() =~= streamed_input(es, b));
        } else {
            lemma_call_position(x.calls, k, x.calls.len() as int);
        }
    }
}

proof fn lemma_named_prefix(
    a: Seq<OpenAIStreamToolCallDelta>,
    b: Seq<OpenAIStreamToolCallDelta>,
    k: usize,
)
    requires
        named_first(a + b, k),
    ensures
        named_first(a, k),
    decreases b.len(),
{
    if b.len() == 0 {
        assert(a + b =~= a);
    } else {
        assert((a + b).drop_last() =~= a + b.drop_last());
        lemma_named_prefix(a, b.drop_last(), k);
    }
}

proof fn lemma_tools_sent(
    v: StreamView,
    es: Seq<EventView>,
    ds: Seq<OpenAIStreamToolCallDelta>,
    k: usize,
    more: Seq<OpenAIStreamToolCallDelta>,
    fresh: Seq<Seq<char>>,
)
    requires
        sent(v, es, ds, k),
        named_first(ds + more, k),
    ensures
        sent(tools_run(v, more, fresh).0, es + tools_run(v, more, fresh).1, ds + more, k),
    decreases more.len(),
{
    if more.len() == 0 {
        assert(ds + more =~= ds);
        assert(es + Seq::<EventView>::empty() =~= es);
    } else {
        let rest = more.drop_last();
        let d = more.last();
        assert((ds + rest).push(d) =~= ds + more);
        assert(ds + more =~= (ds + rest) + seq![d]);
        lemma_named_prefix(ds + rest, seq![d], k);
        lemma_tools_sent(v, es, ds, k, rest, fresh);
        let (w, events) = tools_run(v, rest, fresh);
        let id = fresh[more.len() - 1];
        lemma_tool_sent(w, es + events, ds + rest, k, d, id);
        assert((es + events) + tool_step(w, d, id).1 =~= es + tools_run(v, more, fresh).1);
    }
}

proof fn lemma_text_sent(
    v: StreamView,
    es: Seq<EventView>,
    ds: Seq<OpenAIStreamToolCallDelta>,
    k: usize,
    text: Seq<char>,
)
    requires
        sent(v, es, ds, k),
    ensures
        sent(text_step(v, text).0, es + text_step(v, text).1, ds, k),
{
    let (w, more) = text_step(v, text);
    assert forall|b: nat| #[trigger] streamed_input(es + more, b) == streamed_input(es, b) by {
        lemma_input_concat(es, more, b);
        reveal_with_fuel(streamed_input, 3);
        assert(streamed_input(more, b) =~= Seq::empty());
        assert(streamed_input(es, b) + Seq::<char>::empty() =~= streamed_input(es, b));
    }
}

proof fn lemma_choices_sent(
    v: StreamView,
    es: Seq<EventView>,
    ds: Seq<OpenAIStreamToolCallDelta>,
    k: usize,
    cs: Seq<OpenAIStreamChoice>,
    fresh: Seq<Seq<Seq<char>>>,
)
    requires
        sent(v, es, ds, k),
        named_first(ds + choices_deltas(cs), k),
    ensures
        sent(
            choices_run(v, cs, fresh).0,
            es + choices_run(v, cs, fresh).1,
            ds + choices_deltas(cs),
            k,
        ),
    decreases cs.len(),
{
    if cs.len() == 0 {
        assert(ds + choices_deltas(cs) =~= ds);
        assert(es + Seq::<EventView>::empty() =~= es);
    } else {
        let rest = cs.drop_last();
        let c = cs.last();
        let ids = fresh[cs.len() - 1];
        let deltas = ds + choices_deltas(rest);
        assert(deltas + choice_deltas(c) =~= ds + choices_deltas(cs));
        lemma_named_prefix(deltas, choice_deltas(c), k);
        lemma_choices_sent(v, es, ds, k, rest, fresh);
        let (w, events) = choices_run(v, rest, fresh);
        lemma_text_sent(reason_step(w, c), es + events, deltas, k, choice_text(c));
        let (x, text) = text_step(reason_step(w, c), choice_text(c));
        lemma_tools_sent(x, es + events + text, deltas, k, choice_deltas(c), ids);
        assert(es + events + text + tools_run(x, choice_deltas(c), ids).1 =~= es + choices_run(
            v,
            cs,
            fresh,
        ).1);
    }
}

proof fn lemma_stream_sent(
    chunks: Seq<OpenAIStreamChunk>,
    fresh: Seq<Seq<Seq<Seq<char>>>>,
    k: usize,
)
    requires
        named_first(chunks_deltas(chunks), k),
    ensures
        sent(stream_run(chunks, fresh).0, stream_run(chunks, fresh).1, chunks_deltas(chunks), k),
    decreases chunks.len(),
{
    if chunks.len() == 0 {
        assert(call_position(initial_stream().calls, k) == 0);
    } else {
        let rest = chunks.drop_last();
        let chunk = chunks.last();
        lemma_named_prefix(chunks_deltas(rest), choices_deltas(chunk_choices(chunk)), k);
        lemma_stream_sent(rest, fresh, k);
        let (v, events) = stream_run(rest, fresh);
        lemma_choices_sent(
            usage_step(v, chunk.usage),
            events,
            chunks_deltas(rest),
            k,
            chunk_choices(chunk),
            fresh[chunks.len() - 1],
        );
    }
}

/// A call whose first delta carries its name gets a block of its own, and there the stream sends
/// all arguments of the call, in order, with nothing added or left out.
pub proof fn law_arguments_are_preserved(
    chunks: Seq<OpenAIStreamChunk>,
    fresh: Seq<Seq<Seq<Seq<char>>>>,
    k: usize,
)
    requires
        mentioned(chunks_deltas(chunks), k),
        named_first(chunks_deltas(chunks), k),
    ensures
        ({
            let (v, events) = stream_run(chunks, fresh);
            let p = call_position(v.calls, k);
            &&& 0 <= p < v.calls.len()
            &&& v.calls[p].started
            &&& streamed_input(events, v.calls[p].block) == args_for(chunks_deltas(chunks), k)
        }),
{
    lemma_stream_sent(chunks, fresh, k);
    lemma_call_position_first(stream_run(chunks, fresh).0.calls, k);
}

} // verus!
