//! What a receiver reads from the events of a translated stream.
use vstd::prelude::*;
use crate::api::anthropic::{stop_reason, OpenAIUsage};
use crate::api::stream::{
    call_position, call_step, call_stops, choice_deltas, choice_step, choice_text, choices_run,
    chunk_choices, chunk_step, delta_name, finish_events, initial_stream, lemma_call_position,
    lemma_call_position_first, lemma_call_step, line_payload, payloads, reason_step, sse_text,
    start_events, text_step, tool_step, tools_run, unfinished, usage_step, CallView, EventView,
    OpenAIStreamChoice, OpenAIStreamChunk, OpenAIStreamToolCallDelta, StreamView,
};
use crate::json::{
    distinct_keys, is_integer_text, json_text, lacks_key, lemma_found_key, lemma_lookup_at,
    lemma_lookup_push, nested_at_most, raw_key, readable, same_json, JsonView, READ_DEPTH,
};
use crate::text::{
    dec_int, find_char, has_prefix, is_space, lemma_find_char_first, opt_view, trim_end, trim_start,
    trimmed,
};
use crate::text_laws::{law_decimal_text, law_signed_text, law_trimming, signed_value};

verus! {

/// The number under a key.
pub open spec fn number_under(j: JsonView, key: Seq<char>) -> Option<int> {
    match j.field(key) {
        Some(JsonView::Number(n)) => Some(signed_value(n)),
        _ => None,
    }
}

/// What a receiver reads from the start of a content block.
pub open spec fn read_block_start(data: JsonView) -> Option<EventView> {
    match (number_under(data, "index"@), data.field("content_block"@)) {
        (Some(i), Some(block)) => if i < 0 {
            None
        } else if block.text_field("type"@) == Some("tool_use"@) {
            match (block.text_field("id"@), block.text_field("name"@)) {
                (Some(id), Some(name)) => Some(EventView::ToolStart { index: i as nat, id, name }),
                _ => None,
            }
        } else if block.text_field("type"@) == Some("text"@) {
            Some(EventView::TextStart { index: i as nat })
        } else {
            None
        },
        _ => None,
    }
}

/// What a receiver reads from a piece of a content block.
pub open spec fn read_block_delta(data: JsonView) -> Option<EventView> {
    match (number_under(data, "index"@), data.field("delta"@)) {
        (Some(i), Some(delta)) => if i < 0 {
            None
        } else if delta.text_field("type"@) == Some("text_delta"@) {
            match delta.text_field("text"@) {
                Some(text) => Some(EventView::TextDelta { index: i as nat, text }),
                None => None,
            }
        } else if delta.text_field("type"@) == Some("input_json_delta"@) {
            match delta.text_field("partial_json"@) {
                Some(partial_json) => Some(
                    EventView::InputDelta { index: i as nat, partial_json },
                ),
                None => None,
            }
        } else {
            None
        },
        _ => None,
    }
}

/// What a receiver reads from the end of a message.
pub open spec fn read_message_delta(data: JsonView) -> Option<EventView> {
    match (data.field("delta"@), data.field("usage"@)) {
        (Some(delta), Some(usage)) => match (
            delta.text_field("stop_reason"@),
            number_under(usage, "output_tokens"@),
        ) {
            (Some(stop_reason), Some(n)) => Some(
                EventView::MessageDelta { stop_reason, output_tokens: n as i64 },
            ),
            _ => None,
        },
        _ => None,
    }
}

/// What a receiver reads from the data of an event, by the names of the fields.
pub open spec fn read_event(data: JsonView) -> Option<EventView> {
    let kind = data.text_field("type"@);
    if kind == Some("message_start"@) {
        match data.field("message"@) {
            Some(m) => match (m.text_field("id"@), m.text_field("model"@)) {
                (Some(id), Some(model)) => Some(EventView::MessageStart { id, model }),
                _ => None,
            },
            None => None,
        }
    } else if kind == Some("ping"@) {
        Some(EventView::Ping)
    } else if kind == Some("content_block_start"@) {
        read_block_start(data)
    } else if kind == Some("content_block_delta"@) {
        read_block_delta(data)
    } else if kind == Some("content_block_stop"@) {
        match number_under(data, "index"@) {
            Some(i) => if i < 0 {
                None
            } else {
                Some(EventView::BlockStop { index: i as nat })
            },
            None => None,
        }
    } else if kind == Some("message_delta"@) {
        read_message_delta(data)
    } else if kind == Some("message_stop"@) {
        Some(EventView::MessageStop)
    } else {
        None
    }
}

proof fn lemma_kinds()
    ensures
        "message_start"@.len() == 13,
        "ping"@.len() == 4,
        "content_block_start"@.len() == 19,
        "content_block_delta"@.len() == 19,
        "content_block_start"@ != "content_block_delta"@,
        "content_block_stop"@.len() == 18,
        "message_delta"@.len() == 13,
        "message_start"@ != "message_delta"@,
        "message_stop"@.len() == 12,
        "tool_use"@.len() == 8,
        "text"@.len() == 4,
        "text_delta"@.len() == 10,
        "input_json_delta"@.len() == 16,
{
    reveal_strlit("message_start");
    reveal_strlit("ping");
    reveal_strlit("content_block_start");
    reveal_strlit("content_block_delta");
    reveal_strlit("content_block_stop");
    reveal_strlit("message_delta");
    reveal_strlit("message_stop");
    reveal_strlit("tool_use");
    reveal_strlit("text");
    reveal_strlit("text_delta");
    reveal_strlit("input_json_delta");
    assert("content_block_start"@[14] == 's');
    assert("content_block_delta"@[14] == 'd');
    assert("message_start"@[8] == 's');
    assert("message_delta"@[8] == 'd');
}

proof fn lemma_keys()
    ensures
        "type"@.len() == 4,
        "index"@.len() == 5,
        "content_block"@.len() == 13,
        "delta"@.len() == 5,
        "delta"@ != "index"@,
        "message"@.len() == 7,
        "id"@.len() == 2,
        "name"@.len() == 4,
        "name"@ != "type"@,
        "input"@.len() == 5,
        "role"@.len() == 4,
        "role"@ != "type"@,
        "content"@.len() == 7,
        "model"@.len() == 5,
        "stop_reason"@.len() == 11,
        "stop_sequence"@.len() == 13,
        "usage"@.len() == 5,
        "usage"@ != "delta"@,
        "usage"@ != "model"@,
        "text"@.len() == 4,
        "text"@ != "type"@,
        "partial_json"@.len() == 12,
        "input_tokens"@.len() == 12,
        "output_tokens"@.len() == 13,
{
    reveal_strlit("type");
    reveal_strlit("index");
    reveal_strlit("content_block");
    reveal_strlit("delta");
    reveal_strlit("message");
    reveal_strlit("id");
    reveal_strlit("name");
    reveal_strlit("input");
    reveal_strlit("role");
    reveal_strlit("content");
    reveal_strlit("model");
    reveal_strlit("stop_reason");
    reveal_strlit("stop_sequence");
    reveal_strlit("usage");
    reveal_strlit("text");
    reveal_strlit("partial_json");
    reveal_strlit("input_tokens");
    reveal_strlit("output_tokens");
    assert("delta"@[0] == 'd' && "index"@[0] == 'i' && "usage"@[0] == 'u' && "model"@[0] == 'm');
    assert("name"@[0] == 'n' && "role"@[0] == 'r' && "type"@[1] == 'y' && "text"@[1] == 'e' && "type"@[0] == 't');
}

/// The digits of an index are not taken for a negative number.
proof fn lemma_index(n: nat)
    ensures
        signed_value(crate::text::dec(n)) == n,
{
    law_decimal_text(n);
    assert('0' <= crate::text::dec(n)[0]);
}

/// Every event is read back: its data tell a receiver which event it is, and each of its values
/// stands under the name by which it is looked up.
pub proof fn law_events_are_read_back(e: EventView)
    ensures
        read_event(e.data()) == Some(e),
        e.data().text_field("type"@) == Some(e.name()),
{
    broadcast use lemma_lookup_push;

    lemma_kinds();
    lemma_keys();
    match e {
        EventView::TextStart { index } => {
            lemma_index(index);
        },
        EventView::ToolStart { index, .. } => {
            lemma_index(index);
        },
        EventView::TextDelta { index, .. } => {
            lemma_index(index);
        },
        EventView::InputDelta { index, .. } => {
            lemma_index(index);
        },
        EventView::BlockStop { index } => {
            lemma_index(index);
        },
        EventView::MessageDelta { output_tokens, .. } => {
            law_signed_text(output_tokens as int);
        },
        _ => {},
    }
}

/// Whether the numbers of an event are read as they are: indices of 64 bits.
pub open spec fn event_fits(e: EventView) -> bool {
    match e {
        EventView::TextStart { index } => index <= u64::MAX,
        EventView::ToolStart { index, .. } => index <= u64::MAX,
        EventView::TextDelta { index, .. } => index <= u64::MAX,
        EventView::InputDelta { index, .. } => index <= u64::MAX,
        EventView::BlockStop { index } => index <= u64::MAX,
        _ => true,
    }
}

/// Whether the entries of an object are readable values under keys that are not reserved.
spec fn plain_entries(x: Seq<(Seq<char>, JsonView)>, depth: nat) -> bool {
    forall|i: int| #![trigger x[i]] 0 <= i < x.len() ==> x[i].0 != raw_key() && readable(x[i].1, depth)
}

proof fn lemma_plain(x: Seq<(Seq<char>, JsonView)>, depth: nat)
    requires
        plain_entries(x, depth),
    ensures
        readable(JsonView::Object(x), depth + 1),
{
}

/// An object in an object of an event.
proof fn lemma_inner(x: Seq<(Seq<char>, JsonView)>, depth: nat)
    requires
        depth >= 1,
        plain_entries(x, (depth - 1) as nat),
    ensures
        readable(JsonView::Object(x), depth),
{
    lemma_plain(x, (depth - 1) as nat);
}

/// The data of an event can be read back.
pub proof fn lemma_event_readable(e: EventView)
    ensures
        readable(e.data(), READ_DEPTH as nat),
{
    lemma_keys();
    reveal_strlit("$serde_json::private::RawValue");
    assert(raw_key().len() == 30);
    reveal_with_fuel(nested_at_most, 2);
    reveal_with_fuel(lacks_key, 2);
    let d = (READ_DEPTH - 1) as nat;
    let top = e.payload();
    match e {
        EventView::MessageStart { .. } => {
            let m = top[1].1->Object_0;
            let usage = m[7].1->Object_0;
            assert(plain_entries(usage, (d - 2) as nat));
            lemma_inner(usage, (d - 1) as nat);
            assert(plain_entries(m, (d - 1) as nat));
            lemma_inner(m, d);
        },
        EventView::TextStart { .. } => {
            let b = top[2].1->Object_0;
            assert(plain_entries(b, (d - 1) as nat));
            lemma_inner(b, d);
        },
        EventView::ToolStart { .. } => {
            let b = top[2].1->Object_0;
            assert(plain_entries(b, (d - 1) as nat));
            lemma_inner(b, d);
        },
        EventView::TextDelta { .. } => {
            let b = top[2].1->Object_0;
            assert(plain_entries(b, (d - 1) as nat));
            lemma_inner(b, d);
        },
        EventView::InputDelta { .. } => {
            let b = top[2].1->Object_0;
            assert(plain_entries(b, (d - 1) as nat));
            lemma_inner(b, d);
        },
        EventView::MessageDelta { .. } => {
            let a = top[1].1->Object_0;
            let b = top[2].1->Object_0;
            assert(plain_entries(a, (d - 1) as nat));
            assert(plain_entries(b, (d - 1) as nat));
            lemma_inner(a, d);
            lemma_inner(b, d);
        },
        _ => {},
    }
    assert(plain_entries(top, d));
    lemma_plain(top, d);
}

/// What stands under a key of an object with distinct keys stands there in a value that holds the
/// same.
proof fn lemma_same_field(a: JsonView, b: JsonView, key: Seq<char>)
    requires
        same_json(a, b),
        a is Object,
        distinct_keys(a->Object_0),
        a.field(key) is Some,
    ensures
        b.field(key) is Some,
        same_json(a.field(key)->0, b.field(key)->0),
{
    let x = a->Object_0;
    lemma_found_key(x, key);
    let i = choose|i: int| 0 <= i < x.len() && (#[trigger] x[i]).0 == key;
    lemma_lookup_at(x, key, i);
}

/// The numbers of events are read as they are.
proof fn lemma_integer(n: int)
    requires
        i64::MIN <= n <= u64::MAX,
    ensures
        is_integer_text(dec_int(n)),
{
}

/// An event is read from every value that holds what its data hold.
pub proof fn lemma_event_read_from(e: EventView, j: JsonView)
    requires
        same_json(e.data(), j),
        event_fits(e),
    ensures
        read_event(j) == Some(e),
{
    broadcast use lemma_lookup_push;

    law_events_are_read_back(e);
    lemma_kinds();
    lemma_keys();
    let a = e.data();
    assert(distinct_keys(a->Object_0));
    lemma_same_field(a, j, "type"@);
    match e {
        EventView::MessageStart { .. } => {
            lemma_same_field(a, j, "message"@);
            let m = a.field("message"@)->0;
            let n = j.field("message"@)->0;
            assert(distinct_keys(m->Object_0));
            lemma_same_field(m, n, "id"@);
            lemma_same_field(m, n, "model"@);
        },
        EventView::TextStart { index } => {
            lemma_integer(index as int);
            lemma_same_field(a, j, "index"@);
            lemma_same_field(a, j, "content_block"@);
            let m = a.field("content_block"@)->0;
            let n = j.field("content_block"@)->0;
            assert(distinct_keys(m->Object_0));
            lemma_same_field(m, n, "type"@);
        },
        EventView::ToolStart { index, .. } => {
            lemma_integer(index as int);
            lemma_same_field(a, j, "index"@);
            lemma_same_field(a, j, "content_block"@);
            let m = a.field("content_block"@)->0;
            let n = j.field("content_block"@)->0;
            assert(distinct_keys(m->Object_0));
            lemma_same_field(m, n, "type"@);
            lemma_same_field(m, n, "id"@);
            lemma_same_field(m, n, "name"@);
        },
        EventView::TextDelta { index, .. } => {
            lemma_integer(index as int);
            lemma_same_field(a, j, "index"@);
            lemma_same_field(a, j, "delta"@);
            let m = a.field("delta"@)->0;
            let n = j.field("delta"@)->0;
            assert(distinct_keys(m->Object_0));
            lemma_same_field(m, n, "type"@);
            lemma_same_field(m, n, "text"@);
        },
        EventView::InputDelta { index, .. } => {
            lemma_integer(index as int);
            lemma_same_field(a, j, "index"@);
            lemma_same_field(a, j, "delta"@);
            let m = a.field("delta"@)->0;
            let n = j.field("delta"@)->0;
            assert(distinct_keys(m->Object_0));
            lemma_same_field(m, n, "type"@);
            lemma_same_field(m, n, "partial_json"@);
        },
        EventView::BlockStop { index } => {
            lemma_integer(index as int);
            lemma_same_field(a, j, "index"@);
        },
        EventView::MessageDelta { output_tokens, .. } => {
            lemma_integer(output_tokens as int);
            lemma_same_field(a, j, "delta"@);
            lemma_same_field(a, j, "usage"@);
            let m = a.field("delta"@)->0;
            let n = j.field("delta"@)->0;
            assert(distinct_keys(m->Object_0));
            lemma_same_field(m, n, "stop_reason"@);
            let u = a.field("usage"@)->0;
            let w = j.field("usage"@)->0;
            assert(distinct_keys(u->Object_0));
            lemma_same_field(u, w, "output_tokens"@);
        },
        _ => {},
    }
}

/// The start of a tool call names the tool and the call: the receiver runs the tool called `name`
/// and answers under `id`. Its input is empty until pieces of it come.
pub proof fn law_tool_start(index: nat, id: Seq<char>, name: Seq<char>)
    ensures
        ({
            let data = EventView::ToolStart { index, id, name }.data();
            let block = data.field("content_block"@)->0;
            &&& data.field("content_block"@) is Some
            &&& block.text_field("type"@) == Some("tool_use"@)
            &&& block.text_field("id"@) == Some(id)
            &&& block.text_field("name"@) == Some(name)
            &&& block.field("input"@) == Some(JsonView::Object(Seq::empty()))
            &&& number_under(data, "index"@) == Some(index as int)
        }),
{
    broadcast use lemma_lookup_push;

    lemma_kinds();
    lemma_keys();
    lemma_index(index);
}

/// The start of a text block is empty, and the start of a message announces an answer of the
/// assistant without content, that has not stopped and has used nothing yet.
pub proof fn law_starts_are_empty(index: nat, id: Seq<char>, model: Seq<char>)
    ensures
        ({
            let block = EventView::TextStart { index }.data().field("content_block"@);
            &&& block is Some
            &&& block->0.text_field("text"@) == Some(Seq::<char>::empty())
        }),
        ({
            let m = EventView::MessageStart { id, model }.data().field("message"@)->0;
            let usage = m.field("usage"@)->0;
            &&& m.text_field("type"@) == Some("message"@)
            &&& m.text_field("role"@) == Some("assistant"@)
            &&& m.field("content"@) == Some(JsonView::Array(Seq::empty()))
            &&& m.field("stop_reason"@) == Some(JsonView::Null)
            &&& m.field("stop_sequence"@) == Some(JsonView::Null)
            &&& number_under(usage, "input_tokens"@) == Some(0int)
            &&& number_under(usage, "output_tokens"@) == Some(0int)
        }),
{
    broadcast use lemma_lookup_push;

    lemma_keys();
    lemma_index(0);
    reveal_strlit("");
    assert(""@ =~= Seq::empty());
}

/// What the backend says of a tool call in one delta.
pub open spec fn says(
    d: OpenAIStreamToolCallDelta,
    index: usize,
    id: Seq<char>,
    name: Seq<char>,
    arguments: Seq<char>,
) -> bool {
    &&& d.index == Some(index) || (d.index is None && index == 0)
    &&& opt_view(d.id) == Some(id) || (d.id is None && id.len() == 0)
    &&& match d.function {
        Some(f) => {
            &&& opt_view(f.name) == Some(name) || (f.name is None && name.len() == 0)
            &&& opt_view(f.arguments) == Some(arguments) || (f.arguments is None
                && arguments.len() == 0)
        },
        None => name.len() == 0 && arguments.len() == 0,
    }
}

/// A text that has no characters is the empty text.
proof fn lemma_no_chars(s: Seq<char>)
    ensures
        s.len() == 0 ==> s == Seq::<char>::empty(),
{
    if s.len() == 0 {
        assert(s =~= Seq::<char>::empty());
    }
}

/// The first delta of a call, where it names the tool, opens a new block for the call: the block
/// has the call's identifier (or the generated one, where it has none) and the tool's name, and a
/// first piece of arguments is sent in it.
pub proof fn law_first_delta_opens_a_block(
    v: StreamView,
    d: OpenAIStreamToolCallDelta,
    fresh: Seq<char>,
    index: usize,
    id: Seq<char>,
    name: Seq<char>,
    arguments: Seq<char>,
)
    requires
        says(d, index, id, name, arguments),
        name.len() > 0,
        forall|i: int| 0 <= i < v.calls.len() ==> (#[trigger] v.calls[i]).index != index,
    ensures
        ({
            let (w, es) = tool_step(v, d, fresh);
            let start = EventView::ToolStart {
                index: v.next,
                id: if id.len() > 0 {
                    id
                } else {
                    fresh
                },
                name,
            };
            &&& arguments.len() == 0 ==> es.len() > 0 && es.last() == start
            &&& arguments.len() > 0 ==> {
                &&& es.len() > 1
                &&& es[es.len() - 2] == start
                &&& es.last() == EventView::InputDelta { index: v.next, partial_json: arguments }
            }
            &&& w.next == v.next + 1
            &&& w.calls.len() == v.calls.len() + 1
            &&& w.calls.last().index == index
            &&& w.calls.last().block == v.next
            &&& w.calls.last().started
        }),
{
    lemma_no_chars(id);
    lemma_no_chars(name);
    lemma_no_chars(arguments);
    lemma_call_step(v, index);
    lemma_call_position(v.calls, index, v.calls.len() as int);
    let w = call_step(v, index).0;
    lemma_call_position_first(w.calls, index);
    let p = call_position(w.calls, index);
    if p < v.calls.len() {
        assert(w.calls[p] == v.calls[p]);
    }
    assert(w.calls[p].name + name =~= name);
    assert(w.calls[p].arguments + arguments =~= arguments);
}

/// A call whose tool was not named yet is opened once the name comes: under the identifier that
/// came last (or the generated one, where none came), and with the name in all its pieces.
pub proof fn law_a_name_opens_the_block(
    v: StreamView,
    d: OpenAIStreamToolCallDelta,
    fresh: Seq<char>,
    index: usize,
    id: Seq<char>,
    name: Seq<char>,
    arguments: Seq<char>,
    p: int,
)
    requires
        says(d, index, id, name, arguments),
        d.id is Some ==> id.len() > 0,
        0 <= p < v.calls.len(),
        v.calls[p].index == index,
        !v.calls[p].started,
        v.calls[p].name.len() + name.len() > 0,
        forall|i: int| 0 <= i < p ==> (#[trigger] v.calls[i]).index != index,
    ensures
        ({
            let (w, es) = tool_step(v, d, fresh);
            let start = EventView::ToolStart {
                index: v.calls[p].block,
                id: if id.len() > 0 {
                    id
                } else if v.calls[p].id.len() > 0 {
                    v.calls[p].id
                } else {
                    fresh
                },
                name: v.calls[p].name + name,
            };
            &&& es[0] == start
            &&& arguments.len() == 0 ==> es.len() == 1
            &&& arguments.len() > 0 ==> es.len() == 2 && es[1] == (EventView::InputDelta {
                index: v.calls[p].block,
                partial_json: arguments,
            })
            &&& w.calls[p].started
            &&& w.next == v.next
        }),
{
    lemma_no_chars(id);
    lemma_no_chars(name);
    lemma_no_chars(arguments);
    lemma_call_position(v.calls, index, p);
}

/// The first tool call closes the text before it; later ones leave text alone.
pub proof fn law_the_first_call_closes_the_text(
    v: StreamView,
    d: OpenAIStreamToolCallDelta,
    fresh: Seq<char>,
    index: usize,
    id: Seq<char>,
    name: Seq<char>,
    arguments: Seq<char>,
)
    requires
        says(d, index, id, name, arguments),
    ensures
        v.calls.len() == 0 && v.open_text is Some ==> {
            let (w, es) = tool_step(v, d, fresh);
            &&& es.len() > 0 && es[0] == (EventView::BlockStop { index: v.open_text->0 })
            &&& w.open_text is None
        },
        v.calls.len() > 0 || v.open_text is None ==> tool_step(v, d, fresh).0.open_text
            == v.open_text,
{
    lemma_no_chars(id);
    lemma_no_chars(name);
    lemma_no_chars(arguments);
    lemma_call_step(v, index);
    lemma_call_position_first(v.calls, index);
}

/// The end of the stream closes the open text first, and then the blocks of the tool calls, in the
/// order of the calls.
pub proof fn law_the_end_closes_every_block(v: StreamView, c: CallView)
    ensures
        v.open_text is Some ==> finish_events(v)[0] == (EventView::BlockStop {
            index: v.open_text->0,
        }),
        c.started ==> call_stops(v.calls.push(c)) == call_stops(v.calls).push(
            (EventView::BlockStop { index: c.block }),
        ),
        !c.started ==> call_stops(v.calls.push(c)) == call_stops(v.calls),
        v.open_text is None && v.calls.len() > 0 ==> finish_events(v).len() == call_stops(
            v.calls,
        ).len() + 2,
{
    assert(v.calls.push(c).drop_last() =~= v.calls);
}

/// A later delta of a call whose block is open sends its piece of arguments in that block, and
/// nothing else.
pub proof fn law_later_deltas_go_to_their_block(
    v: StreamView,
    d: OpenAIStreamToolCallDelta,
    fresh: Seq<char>,
    index: usize,
    id: Seq<char>,
    name: Seq<char>,
    arguments: Seq<char>,
    p: int,
)
    requires
        says(d, index, id, name, arguments),
        0 <= p < v.calls.len(),
        v.calls[p].index == index,
        v.calls[p].started,
        forall|i: int| 0 <= i < p ==> (#[trigger] v.calls[i]).index != index,
    ensures
        tool_step(v, d, fresh).1 == (if arguments.len() > 0 {
            seq![EventView::InputDelta { index: v.calls[p].block, partial_json: arguments }]
        } else {
            Seq::<EventView>::empty()
        }),
        tool_step(v, d, fresh).0.next == v.next,
{
    lemma_no_chars(id);
    lemma_no_chars(name);
    lemma_no_chars(arguments);
    lemma_call_position(v.calls, index, p);
    let es = tool_step(v, d, fresh).1;
    if arguments.len() > 0 {
        assert(es =~= seq![
            EventView::InputDelta { index: v.calls[p].block, partial_json: arguments },
        ]);
    }
}

/// A piece of text is sent in the open text block; where none is open, a new one is opened for it.
/// Nothing is sent for no text.
pub proof fn law_text_goes_to_a_text_block(
    v: StreamView,
    c: OpenAIStreamChoice,
    text: Seq<char>,
)
    requires
        c.delta is Some && opt_view(c.delta->0.content) == Some(text),
    ensures
        ({
            let (w, es) = text_step(v, choice_text(c));
            let at = match v.open_text {
                Some(i) => i,
                None => v.next,
            };
            &&& text.len() == 0 ==> es == Seq::<EventView>::empty() && w == v
            &&& text.len() > 0 ==> {
                &&& es.last() == EventView::TextDelta { index: at, text }
                &&& w.open_text == Some(at)
                &&& es.len() == (if v.open_text is Some {
                    1int
                } else {
                    2int
                })
                &&& v.open_text is None ==> es[0] == EventView::TextStart { index: at } && w.next
                    == v.next + 1
            }
        }),
{
}

/// Before the tool of a call is named, nothing is sent of the call.
pub proof fn law_nothing_is_sent_before_the_name(
    v: StreamView,
    d: OpenAIStreamToolCallDelta,
    fresh: Seq<char>,
    index: usize,
    id: Seq<char>,
    arguments: Seq<char>,
    i: int,
)
    requires
        says(d, index, id, Seq::empty(), arguments),
        forall|k: int|
            0 <= k < v.calls.len() ==> (#[trigger] v.calls[k]).index != index || (
            v.calls[k].name.len() == 0 && !v.calls[k].started),
        0 <= i < tool_step(v, d, fresh).1.len(),
    ensures
        tool_step(v, d, fresh).1[i] is BlockStop,
{
    lemma_no_chars(id);
    lemma_no_chars(arguments);
    lemma_call_step(v, index);
    let w = call_step(v, index).0;
    let p = call_position(w.calls, index);
    lemma_call_position_first(v.calls, index);
    if p < v.calls.len() {
        assert(w.calls[p] == v.calls[p]);
    }
    assert(w.calls[p].name.len() == 0);
    assert(!w.calls[p].started);
    assert(delta_name(d).len() == 0);
}

/// A chunk with one choice sends the choice's text and then what its tool calls lead to, in order;
/// a chunk without choices sends nothing.
pub proof fn law_one_choice(
    v: StreamView,
    chunk: OpenAIStreamChunk,
    c: OpenAIStreamChoice,
    fresh: Seq<Seq<Seq<char>>>,
)
    requires
        chunk.choices is Some && chunk.choices->0@ == seq![c],
    ensures
        ({
            let u = reason_step(usage_step(v, chunk.usage), c);
            let (w, text) = text_step(u, choice_text(c));
            let (x, tools) = tools_run(w, choice_deltas(c), fresh[0]);
            chunk_step(v, chunk, fresh) == (x, text + tools)
        }),
{
    let one = seq![c];
    assert(one.drop_last() =~= Seq::empty());
    assert(one.last() == c);
    let u = usage_step(v, chunk.usage);
    reveal_with_fuel(choices_run, 2);
    let es = choice_step(u, c, fresh[0]).1;
    assert(Seq::<EventView>::empty() + es =~= es);
}

/// What a choice and a chunk hold.
pub proof fn law_parts_of_a_chunk(
    chunk: OpenAIStreamChunk,
    c: OpenAIStreamChoice,
    v: StreamView,
    fresh: Seq<Seq<Seq<char>>>,
)
    ensures
        c.delta is None ==> choice_text(c).len() == 0 && choice_deltas(c).len() == 0,
        c.delta is Some && c.delta->0.content is Some ==> choice_text(c) == c.delta->0.content->0@,
        c.delta is Some && c.delta->0.content is None ==> choice_text(c).len() == 0,
        c.delta is Some && c.delta->0.tool_calls is Some ==> choice_deltas(c)
            == c.delta->0.tool_calls->0@,
        c.delta is Some && c.delta->0.tool_calls is None ==> choice_deltas(c).len() == 0,
        chunk.choices is Some ==> chunk_choices(chunk) == chunk.choices->0@,
        chunk.choices is None ==> chunk_step(v, chunk, fresh) == (
            usage_step(v, chunk.usage),
            Seq::<EventView>::empty(),
        ),
{
}

/// Tool call deltas are applied one after the other.
pub proof fn law_deltas_in_order(
    v: StreamView,
    ds: Seq<OpenAIStreamToolCallDelta>,
    d: OpenAIStreamToolCallDelta,
    fresh: Seq<Seq<char>>,
)
    ensures
        ({
            let (w, es) = tools_run(v, ds, fresh);
            let (x, more) = tool_step(w, d, fresh[ds.len() as int]);
            tools_run(v, ds.push(d), fresh) == (x, es + more)
        }),
        tools_run(v, Seq::empty(), fresh) == (v, Seq::<EventView>::empty()),
{
    assert(ds.push(d).drop_last() =~= ds);
}

/// The reason why a message ends is told in the words of the other API; a word that is not known
/// is passed on, and none means that the turn ended.
pub proof fn law_stop_reasons(r: Seq<char>)
    ensures
        stop_reason(None) == "end_turn"@,
        stop_reason(Some("stop"@)) == "end_turn"@,
        stop_reason(Some("length"@)) == "max_tokens"@,
        stop_reason(Some("tool_calls"@)) == "tool_use"@,
        r != "stop"@ && r != "length"@ && r != "tool_calls"@ ==> stop_reason(Some(r)) == r,
{
    reveal_strlit("stop");
    reveal_strlit("length");
    reveal_strlit("tool_calls");
    assert("stop"@.len() == 4 && "length"@.len() == 6 && "tool_calls"@.len() == 10);
}

/// The end of the stream reports the last finish reason and the last count of generated tokens
/// that the backend gave.
pub proof fn law_end_reports_what_came_last(
    v: StreamView,
    c: OpenAIStreamChoice,
    u: OpenAIUsage,
)
    ensures
        ({
            let es = finish_events(v);
            &&& es.len() > 1
            &&& es.last() == EventView::MessageStop
            &&& es[es.len() - 2] is MessageDelta
        }),
        u.completion_tokens is Some ==> ({
            let es = finish_events(usage_step(v, Some(u)));
            es[es.len() - 2]->output_tokens == u.completion_tokens->0
        }),
        u.completion_tokens is None ==> finish_events(usage_step(v, Some(u))) == finish_events(v),
        usage_step(v, None) == v,
        c.finish_reason is Some ==> ({
            let es = finish_events(reason_step(v, c));
            es[es.len() - 2]->MessageDelta_stop_reason == stop_reason(Some(c.finish_reason->0@))
        }),
        c.finish_reason is None ==> reason_step(v, c) == v,
        u.prompt_tokens is Some ==> usage_step(v, Some(u)).usage.0 == u.prompt_tokens->0,
        u.prompt_tokens is None ==> usage_step(v, Some(u)).usage.0 == v.usage.0,
        ({
            let es = finish_events(initial_stream());
            &&& es[es.len() - 2] == EventView::MessageDelta {
                stop_reason: "end_turn"@,
                output_tokens: 0,
            }
            &&& es[0] == EventView::TextStart { index: 0 }
            &&& es[1] == EventView::BlockStop { index: 0 }
            &&& es.len() == 4
        }),
{
    assert(call_stops(Seq::empty()) =~= Seq::empty());
}

/// The stream is announced under its identifier and the model that was asked for.
pub proof fn law_stream_is_announced(id: Seq<char>, model: Seq<char>)
    ensures
        start_events(id, model).len() == 2,
        start_events(id, model)[0] == (EventView::MessageStart { id, model }),
        start_events(id, model)[1] == EventView::Ping,
{
}

/// A server-sent event is a line with its name, a line with its data, and an empty line.
pub proof fn law_sent_event_has_three_lines(name: Seq<char>, data: JsonView)
    ensures
        ({
            let text = sse_text(name, data);
            let n = name.len() as int;
            &&& text.take(7 + n) == "event: "@ + name
            &&& text[7 + n] == '\n'
            &&& text.subrange(8 + n, 14 + n) == "data: "@
            &&& text.subrange(14 + n, text.len() - 2) == json_text(data)
            &&& text[text.len() - 2] == '\n'
            &&& text[text.len() - 1] == '\n'
        }),
{
    reveal_strlit("event: ");
    reveal_strlit("\ndata: ");
    reveal_strlit("data: ");
    reveal_strlit("\n\n");
    let text = sse_text(name, data);
    let n = name.len() as int;
    assert(text.take(7 + n) =~= "event: "@ + name);
    assert(text.subrange(8 + n, 14 + n) =~= "data: "@);
    assert(text.subrange(14 + n, text.len() - 2) =~= json_text(data));
}

/// Trimming leaves a text alone that neither begins nor ends with white space, and takes white
/// space from its end.
proof fn lemma_trimmed_as_is(s: Seq<char>)
    requires
        s.len() > 0,
        !is_space(s[0]),
        !is_space(s.last()),
    ensures
        trimmed(s) == s,
        trimmed(s.push('\r')) == s,
{
    assert(trim_start(s) == s);
    assert(trim_start(s.push('\r')) == s.push('\r'));
    assert(s.push('\r').drop_last() =~= s);
    assert(trim_end(s) == s);
}

/// A line of the backend's stream with data gives the data, whether it ends with a carriage return
/// or not; the mark of the end, and a line without the word `data`, give nothing.
pub proof fn law_data_lines(x: Seq<char>, other: Seq<char>)
    requires
        x.len() > 0,
        !is_space(x.last()),
        other.len() > 4,
        other[0] != 'd' && !is_space(other[0]),
    ensures
        x != "[DONE]"@ ==> line_payload("data: "@ + x) == Some(x),
        x != "[DONE]"@ ==> line_payload(("data: "@ + x).push('\r')) == Some(x),
        line_payload("data: "@ + "[DONE]"@) is None,
        line_payload(other) is None,
{
    reveal_strlit("data: ");
    reveal_strlit("[DONE]");
    reveal_strlit("data: [DONE]");
    let line = "data: "@ + x;
    assert(line.last() == x.last());
    assert(!is_space('d'));
    lemma_trimmed_as_is(line);
    assert(line.subrange(0, 6) =~= "data: "@);
    assert(line.skip(6) =~= x);
    if line == "data: [DONE]"@ {
        assert(x =~= "[DONE]"@) by {
            assert(line.skip(6) =~= "data: [DONE]"@.skip(6));
            assert("data: [DONE]"@.skip(6) =~= "[DONE]"@);
        }
    }
    let end = "data: "@ + "[DONE]"@;
    assert(end =~= "data: [DONE]"@);
    assert(!is_space(']'));
    lemma_trimmed_as_is(end);
    law_trimming(other);
    assert(trim_start(other) == other);
    lemma_trim_end_first(other);
    let t = trimmed(other);
    assert(t[0] == other[0]);
    if has_prefix(t, "data: "@) {
        assert(t.subrange(0, 6)[0] == t[0]);
    }
    if t == "data: [DONE]"@ {
        assert(t[0] == 'd');
    }
}

/// Trimming the end of a text leaves its first character, where that is no white space.
proof fn lemma_trim_end_first(s: Seq<char>)
    requires
        s.len() > 0,
        !is_space(s[0]),
    ensures
        trim_end(s).len() > 0,
        trim_end(s)[0] == s[0],
    decreases s.len(),
{
    if is_space(s.last()) {
        lemma_trim_end_first(s.drop_last());
    }
}

/// The data of the lines are given in the order of the lines; a line counts once it is complete.
pub proof fn law_lines_in_order(line: Seq<char>, rest: Seq<char>)
    requires
        !line.contains('\n'),
    ensures
        payloads(line) == Seq::<Seq<char>>::empty(),
        unfinished(line) == line,
        payloads(line.push('\n') + rest) == (match line_payload(line) {
            Some(p) => seq![p] + payloads(rest),
            None => payloads(rest),
        }),
        unfinished(line.push('\n') + rest) == unfinished(rest),
{
    lemma_find_char_first(line, '\n');
    let all = line.push('\n') + rest;
    lemma_find_char_first(all, '\n');
    let n = line.len() as int;
    assert(all[n] == '\n');
    let k = find_char(all, '\n');
    if k < n {
        assert(all[k] == line[k]);
        assert(line.contains('\n'));
    }
    assert(k == n);
    assert(all.take(n) =~= line);
    assert(all.skip(n + 1) =~= rest);
    let j = find_char(line, '\n');
    if j < line.len() {
        assert(line[j] == '\n');
    }
}

} // verus!
