//! What holds of every translated stream.
use vstd::prelude::*;
use crate::api::stream::{
    call_position, call_step, call_stops, choice_deltas, choice_text, choices_run,
    chunk_choices, chunk_step, closing_events, delta_arguments, delta_index, finish_events,
    initial_stream, lemma_call_step, merged_call, reason_step, start_events, started_call,
    text_step, tool_step, tools_run, usage_step, CallView, EventView, OpenAIStreamChoice,
    OpenAIStreamChunk, OpenAIStreamToolCallDelta, StreamView,
};

verus! {

/// What a content block holds.
pub enum BlockKind {
    Text,
    ToolUse,
}

/// What a receiver knows of the content blocks after some events.
pub struct BlockLog {
    /// The indices of all blocks started so far.
    pub seen: Set<nat>,
    /// The blocks that are open.
    pub open: Map<nat, BlockKind>,
    /// Whether every event so far made sense: no index was started twice, every delta went to an
    /// open block of its kind, and every stop to an open block.
    pub ok: bool,
}

/// A receiver that has seen nothing.
pub open spec fn empty_log() -> BlockLog {
    BlockLog { seen: Set::empty(), open: Map::empty(), ok: true }
}

/// The start of a block.
pub open spec fn log_start(l: BlockLog, index: nat, kind: BlockKind) -> BlockLog {
    BlockLog {
        seen: l.seen.insert(index),
        open: l.open.insert(index, kind),
        ok: l.ok && !l.seen.contains(index),
    }
}

/// A delta for a block.
pub open spec fn log_delta(l: BlockLog, index: nat, kind: BlockKind) -> BlockLog {
    BlockLog { ok: l.ok && l.open.contains_pair(index, kind), ..l }
}

/// What a receiver knows after one more event.
pub open spec fn log_event(l: BlockLog, e: EventView) -> BlockLog {
    match e {
        EventView::TextStart { index } => log_start(l, index, BlockKind::Text),
        EventView::ToolStart { index, .. } => log_start(l, index, BlockKind::ToolUse),
        EventView::TextDelta { index, .. } => log_delta(l, index, BlockKind::Text),
        EventView::InputDelta { index, .. } => log_delta(l, index, BlockKind::ToolUse),
        EventView::BlockStop { index } => BlockLog {
            open: l.open.remove(index),
            ok: l.ok && l.open.contains_key(index),
            ..l
        },
        _ => l,
    }
}

/// What a receiver knows after a sequence of events.
pub open spec fn log_run(l: BlockLog, es: Seq<EventView>) -> BlockLog
    decreases es.len(),
{
    if es.len() == 0 {
        l
    } else {
        log_event(log_run(l, es.drop_last()), es.last())
    }
}

/// A receiver sees one sequence after the other.
proof fn lemma_log_run_concat(l: BlockLog, a: Seq<EventView>, b: Seq<EventView>)
    ensures
        log_run(l, a + b) == log_run(log_run(l, a), b),
    decreases b.len(),
{
    if b.len() == 0 {
        assert(a + b =~= a);
    } else {
        assert((a + b).drop_last() =~= a + b.drop_last());
        lemma_log_run_concat(l, a, b.drop_last());
    }
}

/// A receiver sees one event more.
proof fn lemma_log_run_push(l: BlockLog, a: Seq<EventView>, e: EventView)
    ensures
        log_run(l, a.push(e)) == log_event(log_run(l, a), e),
{
    assert(a.push(e).drop_last() =~= a);
}

/// Whether the block of a started call has index `k`.
pub open spec fn started_block(calls: Seq<CallView>, k: nat) -> bool {
    exists|i: int| 0 <= i < calls.len() && #[trigger] calls[i].started && calls[i].block == k
}

/// How a translation and a receiver agree: open are exactly the text block and the blocks of the
/// started calls, and no index has been given out twice.
pub open spec fn agrees(v: StreamView, l: BlockLog) -> bool {
    &&& l.ok
    &&& forall|k: nat| #[trigger] l.seen.contains(k) ==> k < v.next
    &&& forall|k: nat| #[trigger]
        l.open.contains_key(k) <==> v.open_text == Some(k) || started_block(v.calls, k)
    &&& forall|k: nat| #[trigger] l.open.contains_key(k) ==> l.open[k] == if v.open_text == Some(k) {
        BlockKind::Text
    } else {
        BlockKind::ToolUse
    }
    &&& v.open_text is Some ==> v.open_text->0 < v.next && forall|i: int|
        0 <= i < v.calls.len() ==> (#[trigger] v.calls[i]).block != v.open_text->0
    &&& forall|i: int| 0 <= i < v.calls.len() ==> (#[trigger] v.calls[i]).block < v.next
    &&& forall|i: int|
        0 <= i < v.calls.len() ==> (#[trigger] v.calls[i]).started || !l.seen.contains(
            v.calls[i].block,
        )
    &&& forall|i: int, j: int|
        0 <= i < j < v.calls.len() ==> (#[trigger] v.calls[i]).block != (
        #[trigger] v.calls[j]).block
}

/// A piece of text keeps the agreement.
proof fn lemma_text_agrees(v: StreamView, l: BlockLog, text: Seq<char>)
    requires
        agrees(v, l),
    ensures
        agrees(text_step(v, text).0, log_run(l, text_step(v, text).1)),
{
    reveal_with_fuel(log_run, 4);
    let (w, es) = text_step(v, text);
    if text.len() > 0 {
        match v.open_text {
            Some(i) => {
                assert(es.drop_last() =~= Seq::empty());
                assert(l.open.contains_key(i));
            },
            None => {
                assert(es.drop_last().drop_last() =~= Seq::empty());
                assert(es.drop_last().last() == EventView::TextStart { index: v.next });
                let m = log_run(l, es);
                assert(m.open == l.open.insert(v.next, BlockKind::Text));
                assert(!started_block(v.calls, v.next));
            },
        }
    }
}

/// Making sure of a call keeps the agreement.
proof fn lemma_call_agrees(v: StreamView, l: BlockLog, index: usize)
    requires
        agrees(v, l),
    ensures
        agrees(call_step(v, index).0, log_run(l, call_step(v, index).1)),
{
    reveal_with_fuel(log_run, 3);
    let (w, es) = call_step(v, index);
    let m = log_run(l, es);
    if call_position(v.calls, index) >= v.calls.len() {
        assert forall|k: nat| started_block(w.calls, k) <==> started_block(v.calls, k) by {
            if started_block(v.calls, k) {
                let i = choose|i: int|
                    0 <= i < v.calls.len() && #[trigger] v.calls[i].started && v.calls[i].block
                        == k;
                assert(w.calls[i].started);
            }
            if started_block(w.calls, k) {
                let i = choose|i: int|
                    0 <= i < w.calls.len() && #[trigger] w.calls[i].started && w.calls[i].block
                        == k;
                assert(v.calls[i].started);
            }
        }
        if v.calls.len() == 0 && v.open_text is Some {
            assert(es.drop_last() =~= Seq::empty());
            assert(l.open.contains_key(v.open_text->0));
        }
    }
}

/// A tool call delta keeps the agreement.
proof fn lemma_tool_agrees(
    v: StreamView,
    l: BlockLog,
    d: OpenAIStreamToolCallDelta,
    fresh: Seq<char>,
)
    requires
        agrees(v, l),
    ensures
        agrees(tool_step(v, d, fresh).0, log_run(l, tool_step(v, d, fresh).1)),
{
    let (w, closing) = call_step(v, delta_index(d));
    lemma_call_agrees(v, l, delta_index(d));
    lemma_call_step(v, delta_index(d));
    let m = log_run(l, closing);
    let p = call_position(w.calls, delta_index(d));
    let before = merged_call(w.calls[p], d);
    let c = started_call(before, fresh);
    let x = tool_step(v, d, fresh).0;
    assert(before.block == w.calls[p].block && c.block == before.block);
    let starting = if c.started && !before.started {
        closing.push(EventView::ToolStart { index: c.block, id: c.id, name: c.name })
    } else {
        closing
    };
    let m2 = log_run(l, starting);
    if c.started && !before.started {
        lemma_log_run_push(
            l,
            closing,
            EventView::ToolStart { index: c.block, id: c.id, name: c.name },
        );
        assert(!m.seen.contains(w.calls[p].block));
        assert(m2.open == m.open.insert(c.block, BlockKind::ToolUse));
    }
    assert forall|k: nat| started_block(x.calls, k) <==> (started_block(w.calls, k) || (c.started
        && k == c.block)) by {
        if started_block(w.calls, k) {
            let i = choose|i: int|
                0 <= i < w.calls.len() && #[trigger] w.calls[i].started && w.calls[i].block == k;
            assert(x.calls[i].started && x.calls[i].block == k);
        }
        if c.started && k == c.block {
            assert(x.calls[p].started);
        }
        if started_block(x.calls, k) {
            let i = choose|i: int|
                0 <= i < x.calls.len() && #[trigger] x.calls[i].started && x.calls[i].block == k;
            if i != p {
                assert(w.calls[i].started);
            }
        }
    }
    if !(c.started && !before.started) && c.started {
        assert(w.calls[p].started);
        assert(started_block(w.calls, c.block));
    }
    assert(agrees(x, m2));
    if c.started && delta_arguments(d).len() > 0 {
        lemma_log_run_push(
            l,
            starting,
            EventView::InputDelta { index: c.block, partial_json: delta_arguments(d) },
        );
        assert(x.calls[p].started);
        assert(started_block(x.calls, c.block));
        assert(m2.open.contains_key(c.block));
    }
}

/// Tool call deltas keep the agreement.
proof fn lemma_tools_agree(
    v: StreamView,
    l: BlockLog,
    ds: Seq<OpenAIStreamToolCallDelta>,
    fresh: Seq<Seq<char>>,
)
    requires
        agrees(v, l),
    ensures
        agrees(tools_run(v, ds, fresh).0, log_run(l, tools_run(v, ds, fresh).1)),
    decreases ds.len(),
{
    if ds.len() > 0 {
        let (w, events) = tools_run(v, ds.drop_last(), fresh);
        lemma_tools_agree(v, l, ds.drop_last(), fresh);
        let id = fresh[ds.len() - 1];
        lemma_tool_agrees(w, log_run(l, events), ds.last(), id);
        lemma_log_run_concat(l, events, tool_step(w, ds.last(), id).1);
    }
}

/// Choices keep the agreement.
proof fn lemma_choices_agree(
    v: StreamView,
    l: BlockLog,
    cs: Seq<OpenAIStreamChoice>,
    fresh: Seq<Seq<Seq<char>>>,
)
    requires
        agrees(v, l),
    ensures
        agrees(choices_run(v, cs, fresh).0, log_run(l, choices_run(v, cs, fresh).1)),
    decreases cs.len(),
{
    if cs.len() > 0 {
        let (w, events) = choices_run(v, cs.drop_last(), fresh);
        lemma_choices_agree(v, l, cs.drop_last(), fresh);
        let c = cs.last();
        let ids = fresh[cs.len() - 1];
        let m = log_run(l, events);
        let (x, text) = text_step(reason_step(w, c), choice_text(c));
        lemma_text_agrees(reason_step(w, c), m, choice_text(c));
        lemma_tools_agree(x, log_run(m, text), choice_deltas(c), ids);
        let tools = tools_run(x, choice_deltas(c), ids).1;
        lemma_log_run_concat(m, text, tools);
        lemma_log_run_concat(l, events, text + tools);
    }
}

/// Applying chunks in order; `fresh` holds the identifiers generated for each of them.
pub open spec fn stream_run(
    chunks: Seq<OpenAIStreamChunk>,
    fresh: Seq<Seq<Seq<Seq<char>>>>,
) -> (StreamView, Seq<EventView>)
    decreases chunks.len(),
{
    if chunks.len() == 0 {
        (initial_stream(), Seq::empty())
    } else {
        let (v, events) = stream_run(chunks.drop_last(), fresh);
        let (w, more) = chunk_step(v, chunks.last(), fresh[chunks.len() - 1]);
        (w, events + more)
    }
}

/// All events of a stream, from its start to its end.
pub open spec fn whole_stream(
    id: Seq<char>,
    model: Seq<char>,
    chunks: Seq<OpenAIStreamChunk>,
    fresh: Seq<Seq<Seq<Seq<char>>>>,
) -> Seq<EventView> {
    let (v, events) = stream_run(chunks, fresh);
    start_events(id, model) + events + finish_events(v)
}

/// Every prefix of a stream keeps the agreement.
proof fn lemma_stream_agrees(
    chunks: Seq<OpenAIStreamChunk>,
    fresh: Seq<Seq<Seq<Seq<char>>>>,
)
    ensures
        agrees(stream_run(chunks, fresh).0, log_run(empty_log(), stream_run(chunks, fresh).1)),
    decreases chunks.len(),
{
    if chunks.len() == 0 {
        assert(!(exists|k: nat| started_block(initial_stream().calls, k)));
    } else {
        let (v, events) = stream_run(chunks.drop_last(), fresh);
        lemma_stream_agrees(chunks.drop_last(), fresh);
        let chunk = chunks.last();
        let ids = fresh[chunks.len() - 1];
        let m = log_run(empty_log(), events);
        lemma_choices_agree(usage_step(v, chunk.usage), m, chunk_choices(chunk), ids);
        lemma_log_run_concat(empty_log(), events, chunk_step(v, chunk, ids).1);
    }
}

/// The stops of the calls close exactly the blocks of the started calls.
proof fn lemma_call_stops(v: StreamView, l: BlockLog, n: int)
    requires
        agrees(v, l),
        v.open_text is None,
        0 <= n <= v.calls.len(),
    ensures
        ({
            let m = log_run(l, call_stops(v.calls.take(n)));
            &&& m.ok
            &&& m.seen == l.seen
            &&& forall|k: nat| #[trigger]
                m.open.contains_key(k) <==> started_block(v.calls.skip(n), k)
        }),
    decreases n,
{
    if n == 0 {
        assert(v.calls.take(0) =~= Seq::empty());
        assert(v.calls.skip(0) =~= v.calls);
    } else {
        lemma_call_stops(v, l, n - 1);
        let before = v.calls.take(n - 1);
        let c = v.calls[n - 1];
        assert(v.calls.take(n).drop_last() =~= before);
        assert(v.calls.take(n).last() == c);
        let m0 = log_run(l, call_stops(before));
        let m = log_run(l, call_stops(v.calls.take(n)));
        if c.started {
            lemma_log_run_push(l, call_stops(before), EventView::BlockStop { index: c.block });
            assert(v.calls.skip(n - 1)[0] == c);
            assert(started_block(v.calls.skip(n - 1), c.block));
            assert(m0.open.contains_key(c.block));
        }
        assert forall|k: nat|
            started_block(v.calls.skip(n), k) <==> (started_block(v.calls.skip(n - 1), k) && !(
            c.started && k == c.block)) by {
            if started_block(v.calls.skip(n), k) {
                let i = choose|i: int|
                    0 <= i < v.calls.skip(n).len() && #[trigger] v.calls.skip(n)[i].started
                        && v.calls.skip(n)[i].block == k;
                assert(v.calls.skip(n - 1)[i + 1].started);
                assert(v.calls[n + i].block != v.calls[n - 1].block);
            }
            if started_block(v.calls.skip(n - 1), k) && !(c.started && k == c.block) {
                let i = choose|i: int|
                    0 <= i < v.calls.skip(n - 1).len() && #[trigger] v.calls.skip(n - 1)[i].started
                        && v.calls.skip(n - 1)[i].block == k;
                assert(i > 0);
                assert(v.calls.skip(n)[i - 1].started);
            }
        }
    }
}

/// Closing closes every block.
proof fn lemma_closing(v: StreamView, l: BlockLog)
    requires
        agrees(v, l),
        v.open_text is None && v.calls.len() == 0 ==> !l.seen.contains(0),
    ensures
        ({
            let m = log_run(l, closing_events(v));
            &&& m.ok
            &&& m.open == Map::<nat, BlockKind>::empty()
            &&& forall|k: nat| l.seen.contains(k) ==> m.seen.contains(k)
        }),
{
    reveal_with_fuel(log_run, 3);
    let text = match v.open_text {
        Some(i) => Seq::<EventView>::empty().push(EventView::BlockStop { index: i }),
        None => Seq::empty(),
    };
    let v1 = StreamView { open_text: None, ..v };
    let l1 = log_run(l, text);
    if v.open_text is Some {
        assert(text.drop_last() =~= Seq::empty());
        assert(l.open.contains_key(v.open_text->0));
        assert(!started_block(v.calls, v.open_text->0));
    }
    assert(agrees(v1, l1));
    lemma_call_stops(v1, l1, v.calls.len() as int);
    assert(v.calls.take(v.calls.len() as int) =~= v.calls);
    lemma_log_run_concat(l, text, call_stops(v.calls));
    let all = text + call_stops(v.calls);
    let m1 = log_run(l, all);
    assert forall|k: nat| !m1.open.contains_key(k) by {
        assert(!started_block(v1.calls.skip(v.calls.len() as int), k));
    }
    assert(m1.open =~= Map::empty());
    if v.open_text is None && v.calls.len() == 0 {
        let e1 = EventView::TextStart { index: 0 };
        let e2 = EventView::BlockStop { index: 0 };
        lemma_log_run_push(l, all, e1);
        lemma_log_run_push(l, all.push(e1), e2);
        assert(log_run(l, closing_events(v)).open =~= Map::empty());
    }
}

/// Before any text or tool call, no block has been started.
proof fn lemma_nothing_seen(
    chunks: Seq<OpenAIStreamChunk>,
    fresh: Seq<Seq<Seq<Seq<char>>>>,
)
    ensures
        ({
            let (v, events) = stream_run(chunks, fresh);
            v.open_text is None && v.calls.len() == 0 ==> v.next == 0
        }),
    decreases chunks.len(),
{
    if chunks.len() > 0 {
        lemma_nothing_seen(chunks.drop_last(), fresh);
        let (v, events) = stream_run(chunks.drop_last(), fresh);
        let chunk = chunks.last();
        lemma_choices_nothing(
            usage_step(v, chunk.usage),
            chunk_choices(chunk),
            fresh[chunks.len() - 1],
        );
    }
}

/// Choices that leave neither text nor a tool call leave the first index free.
proof fn lemma_choices_nothing(
    v: StreamView,
    cs: Seq<OpenAIStreamChoice>,
    fresh: Seq<Seq<Seq<char>>>,
)
    requires
        v.open_text is None && v.calls.len() == 0 ==> v.next == 0,
    ensures
        ({
            let w = choices_run(v, cs, fresh).0;
            w.open_text is None && w.calls.len() == 0 ==> w.next == 0
        }),
    decreases cs.len(),
{
    if cs.len() > 0 {
        lemma_choices_nothing(v, cs.drop_last(), fresh);
        let w = choices_run(v, cs.drop_last(), fresh).0;
        let c = cs.last();
        let x = text_step(reason_step(w, c), choice_text(c)).0;
        lemma_tools_nothing(x, choice_deltas(c), fresh[cs.len() - 1]);
    }
}

/// Tool call deltas leave at least one tool call.
proof fn lemma_tools_nothing(
    v: StreamView,
    ds: Seq<OpenAIStreamToolCallDelta>,
    fresh: Seq<Seq<char>>,
)
    ensures
        tools_run(v, ds, fresh).0.calls.len() >= v.calls.len(),
        ds.len() > 0 ==> tools_run(v, ds, fresh).0.calls.len() > 0,
        ds.len() == 0 ==> tools_run(v, ds, fresh).0 == v,
    decreases ds.len(),
{
    if ds.len() > 0 {
        lemma_tools_nothing(v, ds.drop_last(), fresh);
        let w = tools_run(v, ds.drop_last(), fresh).0;
        lemma_call_step(w, delta_index(ds.last()));
    }
}

/// In every translated stream each content block is started once, under an index of its own,
/// takes deltas of its own kind only while it is open, and is stopped once; no block is left open.
/// The stream begins with `message_start` and ends with `message_stop`.
pub proof fn law_every_block_is_closed(
    id: Seq<char>,
    model: Seq<char>,
    chunks: Seq<OpenAIStreamChunk>,
    fresh: Seq<Seq<Seq<Seq<char>>>>,
)
    ensures
        ({
            let events = whole_stream(id, model, chunks, fresh);
            let l = log_run(empty_log(), events);
            &&& l.ok
            &&& l.open == Map::<nat, BlockKind>::empty()
            &&& events.first() == EventView::MessageStart { id, model }
            &&& events.last() == EventView::MessageStop
        }),
{
    let (v, events) = stream_run(chunks, fresh);
    let head = start_events(id, model);
    let e0 = EventView::MessageStart { id, model };
    let none = Seq::<EventView>::empty();
    lemma_log_run_push(empty_log(), none.push(e0), EventView::Ping);
    lemma_log_run_push(empty_log(), none, e0);
    lemma_log_run_concat(empty_log(), head, events);
    lemma_stream_agrees(chunks, fresh);
    lemma_nothing_seen(chunks, fresh);
    let l = log_run(empty_log(), events);
    lemma_closing(v, l);
    let closing = closing_events(v);
    let finish = finish_events(v);
    let e1 = finish[closing.len() as int];
    assert(finish =~= closing.push(e1).push(EventView::MessageStop));
    lemma_log_run_push(l, closing, e1);
    lemma_log_run_push(l, closing.push(e1), EventView::MessageStop);
    lemma_log_run_concat(empty_log(), head + events, finish);
}

/// A stream in which every tool call was given a name has at least one content block.
pub proof fn law_named_stream_has_a_block(
    id: Seq<char>,
    model: Seq<char>,
    chunks: Seq<OpenAIStreamChunk>,
    fresh: Seq<Seq<Seq<Seq<char>>>>,
)
    requires
        forall|i: int|
            0 <= i < stream_run(chunks, fresh).0.calls.len() ==> (
            #[trigger] stream_run(chunks, fresh).0.calls[i]).started,
    ensures
        exists|k: nat| #[trigger]
            log_run(empty_log(), whole_stream(id, model, chunks, fresh)).seen.contains(k),
{
    let (v, events) = stream_run(chunks, fresh);
    let head = start_events(id, model);
    let e0 = EventView::MessageStart { id, model };
    let none = Seq::<EventView>::empty();
    lemma_log_run_push(empty_log(), none.push(e0), EventView::Ping);
    lemma_log_run_push(empty_log(), none, e0);
    lemma_log_run_concat(empty_log(), head, events);
    lemma_stream_agrees(chunks, fresh);
    lemma_nothing_seen(chunks, fresh);
    let l = log_run(empty_log(), events);
    let closing = closing_events(v);
    let finish = finish_events(v);
    let e1 = finish[closing.len() as int];
    assert(finish =~= closing.push(e1).push(EventView::MessageStop));
    lemma_log_run_push(l, closing, e1);
    lemma_log_run_push(l, closing.push(e1), EventView::MessageStop);
    lemma_log_run_concat(empty_log(), head + events, finish);
    lemma_closing(v, l);
    let whole = log_run(empty_log(), whole_stream(id, model, chunks, fresh));
    assert(whole.seen == log_run(l, closing).seen);
    lemma_open_was_seen(empty_log(), events);
    if v.open_text is Some {
        assert(l.open.contains_key(v.open_text->0));
        assert(l.seen.contains(v.open_text->0));
        assert(whole.seen.contains(v.open_text->0));
    } else if v.calls.len() > 0 {
        assert(v.calls[0].started);
        assert(started_block(v.calls, v.calls[0].block));
        assert(l.open.contains_key(v.calls[0].block));
        assert(l.seen.contains(v.calls[0].block));
        assert(whole.seen.contains(v.calls[0].block));
    } else {
        let all = Seq::<EventView>::empty() + call_stops(v.calls);
        assert(closing =~= all.push(EventView::TextStart { index: 0 }).push(
            EventView::BlockStop { index: 0 },
        ));
        lemma_log_run_push(l, all, EventView::TextStart { index: 0 });
        lemma_log_run_push(
            l,
            all.push(EventView::TextStart { index: 0 }),
            EventView::BlockStop { index: 0 },
        );
        assert(whole.seen.contains(0nat));
    }
}

/// A block that is open has been started.
proof fn lemma_open_was_seen(l: BlockLog, es: Seq<EventView>)
    requires
        forall|k: nat| #[trigger] l.open.contains_key(k) ==> l.seen.contains(k),
    ensures
        forall|k: nat| #[trigger]
            log_run(l, es).open.contains_key(k) ==> log_run(l, es).seen.contains(k),
    decreases es.len(),
{
    if es.len() > 0 {
        lemma_open_was_seen(l, es.drop_last());
        let m = log_run(l, es.drop_last());
        let n = log_run(l, es);
        assert forall|k: nat| #[trigger] n.open.contains_key(k) implies n.seen.contains(k) by {
            assert(m.open.contains_key(k) ==> m.seen.contains(k));
        }
    }
}

/// The text in a sequence of events.
pub open spec fn streamed_text(es: Seq<EventView>) -> Seq<char>
    decreases es.len(),
{
    if es.len() == 0 {
        Seq::empty()
    } else {
        let before = streamed_text(es.drop_last());
        match es.last() {
            EventView::TextDelta { text, .. } => before + text,
            _ => before,
        }
    }
}

/// The text in a sequence of choices.
pub open spec fn choices_text(cs: Seq<OpenAIStreamChoice>) -> Seq<char>
    decreases cs.len(),
{
    if cs.len() == 0 {
        Seq::empty()
    } else {
        choices_text(cs.drop_last()) + choice_text(cs.last())
    }
}

/// The text of one sequence of events after the other.
proof fn lemma_streamed_text_concat(a: Seq<EventView>, b: Seq<EventView>)
    ensures
        streamed_text(a + b) == streamed_text(a) + streamed_text(b),
    decreases b.len(),
{
    if b.len() == 0 {
        assert(a + b =~= a);
        assert(streamed_text(a) + streamed_text(b) =~= streamed_text(a));
    } else {
        assert((a + b).drop_last() =~= a + b.drop_last());
        lemma_streamed_text_concat(a, b.drop_last());
        assert(streamed_text(a + b) =~= streamed_text(a) + streamed_text(b));
    }
}

/// Tool call deltas send no text.
proof fn lemma_tools_send_no_text(
    v: StreamView,
    ds: Seq<OpenAIStreamToolCallDelta>,
    fresh: Seq<Seq<char>>,
)
    ensures
        streamed_text(tools_run(v, ds, fresh).1) == Seq::<char>::empty(),
    decreases ds.len(),
{
    if ds.len() > 0 {
        lemma_tools_send_no_text(v, ds.drop_last(), fresh);
        let (w, events) = tools_run(v, ds.drop_last(), fresh);
        let es = tool_step(w, ds.last(), fresh[ds.len() - 1]).1;
        lemma_streamed_text_concat(events, es);
        assert forall|i: int| 0 <= i < es.len() implies !((#[trigger] es[i]) is TextDelta) by {}
        lemma_no_text(es);
    }
}

/// Events without a text delta hold no text.
proof fn lemma_no_text(es: Seq<EventView>)
    requires
        forall|i: int| 0 <= i < es.len() ==> !((#[trigger] es[i]) is TextDelta),
    ensures
        streamed_text(es) == Seq::<char>::empty(),
    decreases es.len(),
{
    if es.len() > 0 {
        lemma_no_text(es.drop_last());
    }
}

/// Choices send their text, in order, with nothing added or left out.
proof fn lemma_choices_text(
    v: StreamView,
    cs: Seq<OpenAIStreamChoice>,
    fresh: Seq<Seq<Seq<char>>>,
)
    ensures
        streamed_text(choices_run(v, cs, fresh).1) == choices_text(cs),
    decreases cs.len(),
{
    if cs.len() > 0 {
        lemma_choices_text(v, cs.drop_last(), fresh);
        let (w, events) = choices_run(v, cs.drop_last(), fresh);
        let c = cs.last();
        let (x, text) = text_step(reason_step(w, c), choice_text(c));
        let tools = tools_run(x, choice_deltas(c), fresh[cs.len() - 1]).1;
        lemma_tools_send_no_text(x, choice_deltas(c), fresh[cs.len() - 1]);
        lemma_streamed_text_concat(text, tools);
        lemma_streamed_text_concat(events, text + tools);
        reveal_with_fuel(streamed_text, 4);
        if choice_text(c).len() > 0 {
            if reason_step(w, c).open_text is None {
                assert(text.drop_last().drop_last() =~= Seq::empty());
            } else {
                assert(text.drop_last() =~= Seq::empty());
            }
        }
        assert(streamed_text(text) =~= choice_text(c));
        assert(streamed_text(choices_run(v, cs, fresh).1) =~= choices_text(cs));
    }
}

/// The text in a sequence of chunks.
pub open spec fn chunks_text(chunks: Seq<OpenAIStreamChunk>) -> Seq<char>
    decreases chunks.len(),
{
    if chunks.len() == 0 {
        Seq::empty()
    } else {
        chunks_text(chunks.drop_last()) + choices_text(chunk_choices(chunks.last()))
    }
}

proof fn lemma_stream_text(chunks: Seq<OpenAIStreamChunk>, fresh: Seq<Seq<Seq<Seq<char>>>>)
    ensures
        streamed_text(stream_run(chunks, fresh).1) == chunks_text(chunks),
    decreases chunks.len(),
{
    if chunks.len() > 0 {
        lemma_stream_text(chunks.drop_last(), fresh);
        let (v, events) = stream_run(chunks.drop_last(), fresh);
        let chunk = chunks.last();
        let ids = fresh[chunks.len() - 1];
        lemma_choices_text(usage_step(v, chunk.usage), chunk_choices(chunk), ids);
        lemma_streamed_text_concat(events, chunk_step(v, chunk, ids).1);
    }
}

/// The stops of calls hold no text.
proof fn lemma_stops_hold_no_text(calls: Seq<CallView>)
    ensures
        streamed_text(call_stops(calls)) == Seq::<char>::empty(),
    decreases calls.len(),
{
    if calls.len() > 0 {
        lemma_stops_hold_no_text(calls.drop_last());
        let before = call_stops(calls.drop_last());
        if calls.last().started {
            assert(call_stops(calls).drop_last() =~= before);
        }
    }
}

/// A whole stream sends the text of every chunk, in order, with nothing added or left out.
pub proof fn law_text_is_preserved(
    id: Seq<char>,
    model: Seq<char>,
    chunks: Seq<OpenAIStreamChunk>,
    fresh: Seq<Seq<Seq<Seq<char>>>>,
)
    ensures
        streamed_text(whole_stream(id, model, chunks, fresh)) == chunks_text(chunks),
{
    let (v, events) = stream_run(chunks, fresh);
    let head = start_events(id, model);
    lemma_stream_text(chunks, fresh);
    lemma_no_text(head);
    lemma_streamed_text_concat(head, events);
    let text = match v.open_text {
        Some(i) => Seq::<EventView>::empty().push(EventView::BlockStop { index: i }),
        None => Seq::empty(),
    };
    lemma_no_text(text);
    lemma_stops_hold_no_text(v.calls);
    lemma_streamed_text_concat(text, call_stops(v.calls));
    let all = text + call_stops(v.calls);
    let finish = finish_events(v);
    let tail = finish.skip(all.len() as int);
    assert(finish =~= all + tail);
    assert forall|i: int| 0 <= i < tail.len() implies !((#[trigger] tail[i]) is TextDelta) by {
        assert(tail[i] == finish[all.len() + i]);
    }
    lemma_no_text(tail);
    lemma_streamed_text_concat(all, tail);
    lemma_streamed_text_concat(head + events, finish);
    assert(streamed_text(whole_stream(id, model, chunks, fresh)) =~= chunks_text(chunks));
}

} // verus!
