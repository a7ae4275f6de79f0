//! Translation of an OpenAI event stream into Anthropic stream events.
use vstd::prelude::*;
use vstd::string::StringExecFns;
use vstd::utf8::{decode_utf8, valid_utf8};
use crate::api::anthropic::{
    stop_reason, text_block, translate_stop_reason, make_text_block, OpenAIUsage,
};
use crate::api::event_laws::{
    event_fits, lemma_event_read_from, lemma_event_readable, read_event,
};
use crate::ids::{generate_tool_use_id, is_tool_use_id};
use crate::json::{json_read, json_text, no_fields, to_text, Json, JsonView, ObjectBuilder};
use crate::text::{
    after_prefix, chars_of, dec, dec_int, find_char, lemma_find_char_first, opt_view, position_of,
    str_eq, string_of, strip_prefix, trim, trimmed, views,
};

verus! {

/// The function part of a tool call delta.
#[derive(Debug)]
pub struct OpenAIStreamToolCallFunction {
    pub name: Option<String>,
    pub arguments: Option<String>,
}

/// A tool call delta in a stream chunk.
#[derive(Debug)]
pub struct OpenAIStreamToolCallDelta {
    pub index: Option<usize>,
    pub id: Option<String>,
    pub function: Option<OpenAIStreamToolCallFunction>,
}

/// A delta in a stream chunk.
#[derive(Debug)]
pub struct OpenAIStreamDelta {
    pub content: Option<String>,
    pub tool_calls: Option<Vec<OpenAIStreamToolCallDelta>>,
}

/// A choice in a stream chunk.
#[derive(Debug)]
pub struct OpenAIStreamChoice {
    pub delta: Option<OpenAIStreamDelta>,
    pub finish_reason: Option<String>,
}

/// A stream chunk.
#[derive(Debug)]
pub struct OpenAIStreamChunk {
    pub choices: Option<Vec<OpenAIStreamChoice>>,
    pub usage: Option<OpenAIUsage>,
}

/// An event of the translated stream.
#[derive(Debug, PartialEq, Eq)]
pub enum StreamEvent {
    MessageStart { id: String, model: String },
    Ping,
    TextStart { index: u128 },
    ToolStart { index: u128, id: String, name: String },
    TextDelta { index: u128, text: String },
    InputDelta { index: u128, partial_json: String },
    BlockStop { index: u128 },
    MessageDelta { stop_reason: String, output_tokens: i64 },
    MessageStop,
}

/// The model of an event.
pub enum EventView {
    MessageStart { id: Seq<char>, model: Seq<char> },
    Ping,
    TextStart { index: nat },
    ToolStart { index: nat, id: Seq<char>, name: Seq<char> },
    TextDelta { index: nat, text: Seq<char> },
    InputDelta { index: nat, partial_json: Seq<char> },
    BlockStop { index: nat },
    MessageDelta { stop_reason: Seq<char>, output_tokens: i64 },
    MessageStop,
}

impl View for StreamEvent {
    type V = EventView;

    open spec fn view(&self) -> EventView {
        match self {
            StreamEvent::MessageStart { id, model } => EventView::MessageStart {
                id: id@,
                model: model@,
            },
            StreamEvent::Ping => EventView::Ping,
            StreamEvent::TextStart { index } => EventView::TextStart { index: *index as nat },
            StreamEvent::ToolStart { index, id, name } => EventView::ToolStart {
                index: *index as nat,
                id: id@,
                name: name@,
            },
            StreamEvent::TextDelta { index, text } => EventView::TextDelta {
                index: *index as nat,
                text: text@,
            },
            StreamEvent::InputDelta { index, partial_json } => EventView::InputDelta {
                index: *index as nat,
                partial_json: partial_json@,
            },
            StreamEvent::BlockStop { index } => EventView::BlockStop { index: *index as nat },
            StreamEvent::MessageDelta { stop_reason, output_tokens } => EventView::MessageDelta {
                stop_reason: stop_reason@,
                output_tokens: *output_tokens,
            },
            StreamEvent::MessageStop => EventView::MessageStop,
        }
    }
}

/// The models of a list of events.
pub open spec fn event_views(s: Seq<StreamEvent>) -> Seq<EventView> {
    s.map_values(|e: StreamEvent| e@)
}

/// A string value.
pub open spec fn jtext(s: Seq<char>) -> JsonView {
    JsonView::Text(s)
}

impl EventView {
    /// The name that the event is sent under.
    pub open spec fn name(self) -> Seq<char> {
        match self {
            EventView::MessageStart { .. } => "message_start"@,
            EventView::Ping => "ping"@,
            EventView::TextStart { .. } => "content_block_start"@,
            EventView::ToolStart { .. } => "content_block_start"@,
            EventView::TextDelta { .. } => "content_block_delta"@,
            EventView::InputDelta { .. } => "content_block_delta"@,
            EventView::BlockStop { .. } => "content_block_stop"@,
            EventView::MessageDelta { .. } => "message_delta"@,
            EventView::MessageStop => "message_stop"@,
        }
    }

    /// The entries beside the event's type.
    pub open spec fn payload(self) -> Seq<(Seq<char>, JsonView)> {
        let f = no_fields().push(("type"@, jtext(self.name())));
        match self {
            EventView::MessageStart { id, model } => f.push(
                (
                    "message"@,
                    JsonView::Object(
                        no_fields().push(("id"@, jtext(id))).push(
                            ("type"@, jtext("message"@)),
                        ).push(("role"@, jtext("assistant"@))).push(
                            ("content"@, JsonView::Array(Seq::empty())),
                        ).push(("model"@, jtext(model))).push(
                            ("stop_reason"@, JsonView::Null),
                        ).push(("stop_sequence"@, JsonView::Null)).push(
                            (
                                "usage"@,
                                JsonView::Object(
                                    no_fields().push(
                                        ("input_tokens"@, JsonView::Number(dec(0))),
                                    ).push(("output_tokens"@, JsonView::Number(dec(0)))),
                                ),
                            ),
                        ),
                    ),
                ),
            ),
            EventView::Ping => f,
            EventView::TextStart { index } => f.push(("index"@, JsonView::Number(dec(index)))).push(
                ("content_block"@, text_block(""@)),
            ),
            EventView::ToolStart { index, id, name } => f.push(
                ("index"@, JsonView::Number(dec(index))),
            ).push(
                (
                    "content_block"@,
                    JsonView::Object(
                        no_fields().push(("type"@, jtext("tool_use"@))).push(
                            ("id"@, jtext(id)),
                        ).push(("name"@, jtext(name))).push(
                            ("input"@, JsonView::Object(no_fields())),
                        ),
                    ),
                ),
            ),
            EventView::TextDelta { index, text } => f.push(
                ("index"@, JsonView::Number(dec(index))),
            ).push(
                (
                    "delta"@,
                    JsonView::Object(
                        no_fields().push(("type"@, jtext("text_delta"@))).push(
                            ("text"@, jtext(text)),
                        ),
                    ),
                ),
            ),
            EventView::InputDelta { index, partial_json } => f.push(
                ("index"@, JsonView::Number(dec(index))),
            ).push(
                (
                    "delta"@,
                    JsonView::Object(
                        no_fields().push(("type"@, jtext("input_json_delta"@))).push(
                            ("partial_json"@, jtext(partial_json)),
                        ),
                    ),
                ),
            ),
            EventView::BlockStop { index } => f.push(("index"@, JsonView::Number(dec(index)))),
            EventView::MessageDelta { stop_reason, output_tokens } => f.push(
                (
                    "delta"@,
                    JsonView::Object(
                        no_fields().push(("stop_reason"@, jtext(stop_reason))).push(
                            ("stop_sequence"@, JsonView::Null),
                        ),
                    ),
                ),
            ).push(
                (
                    "usage"@,
                    JsonView::Object(
                        no_fields().push(
                            (
                                "output_tokens"@,
                                JsonView::Number(dec_int(output_tokens as int)),
                            ),
                        ),
                    ),
                ),
            ),
            EventView::MessageStop => f,
        }
    }

    /// The data that the event is sent with.
    pub open spec fn data(self) -> JsonView {
        JsonView::Object(self.payload())
    }
}

/// A server-sent event with a name and JSON data.
pub open spec fn sse_text(event: Seq<char>, data: JsonView) -> Seq<char> {
    "event: "@ + event + "\ndata: "@ + json_text(data) + "\n\n"@
}

/// A server-sent event with a name and JSON data.
pub fn sse_event(event: &str, data: &Json) -> (r: String)
    ensures
        r@ == sse_text(event@, data@),
{
    let body = to_text(data);
    "event: ".to_owned().concat(event).concat("\ndata: ").concat(&body).concat("\n\n")
}

impl StreamEvent {
    /// The name that the event is sent under.
    pub fn name(&self) -> (r: &'static str)
        ensures
            r@ == self@.name(),
    {
        match self {
            StreamEvent::MessageStart { .. } => "message_start",
            StreamEvent::Ping => "ping",
            StreamEvent::TextStart { .. } => "content_block_start",
            StreamEvent::ToolStart { .. } => "content_block_start",
            StreamEvent::TextDelta { .. } => "content_block_delta",
            StreamEvent::InputDelta { .. } => "content_block_delta",
            StreamEvent::BlockStop { .. } => "content_block_stop",
            StreamEvent::MessageDelta { .. } => "message_delta",
            StreamEvent::MessageStop => "message_stop",
        }
    }

    /// The data that the event is sent with.
    pub fn data(&self) -> (r: Json)
        ensures
            r@ == self@.data(),
    {
        let f = ObjectBuilder::new().with("type", Json::str(self.name()));
        match self {
            StreamEvent::MessageStart { id, model } => {
                let empty: Vec<Json> = Vec::new();
                assert(crate::json::json_views(empty@) =~= Seq::empty());
                let usage = ObjectBuilder::new().with("input_tokens", Json::unsigned(0)).with(
                    "output_tokens",
                    Json::unsigned(0),
                ).done();
                let message = ObjectBuilder::new().with("id", Json::str(id)).with(
                    "type",
                    Json::str("message"),
                ).with("role", Json::str("assistant")).with("content", Json::array(empty)).with(
                    "model",
                    Json::str(model),
                ).with("stop_reason", Json::Null).with("stop_sequence", Json::Null).with(
                    "usage",
                    usage,
                ).done();
                f.with("message", message).done()
            },
            StreamEvent::Ping => f.done(),
            StreamEvent::TextStart { index } => f.with("index", Json::unsigned(*index)).with(
                "content_block",
                make_text_block(""),
            ).done(),
            StreamEvent::ToolStart { index, id, name } => {
                let block = ObjectBuilder::new().with("type", Json::str("tool_use")).with(
                    "id",
                    Json::str(id),
                ).with("name", Json::str(name)).with("input", ObjectBuilder::new().done()).done();
                f.with("index", Json::unsigned(*index)).with("content_block", block).done()
            },
            StreamEvent::TextDelta { index, text } => {
                let delta = ObjectBuilder::new().with("type", Json::str("text_delta")).with(
                    "text",
                    Json::str(text),
                ).done();
                f.with("index", Json::unsigned(*index)).with("delta", delta).done()
            },
            StreamEvent::InputDelta { index, partial_json } => {
                let delta = ObjectBuilder::new().with("type", Json::str("input_json_delta")).with(
                    "partial_json",
                    Json::str(partial_json),
                ).done();
                f.with("index", Json::unsigned(*index)).with("delta", delta).done()
            },
            StreamEvent::BlockStop { index } => f.with("index", Json::unsigned(*index)).done(),
            StreamEvent::MessageDelta { stop_reason, output_tokens } => {
                let delta = ObjectBuilder::new().with("stop_reason", Json::str(stop_reason)).with(
                    "stop_sequence",
                    Json::Null,
                ).done();
                let usage = ObjectBuilder::new().with(
                    "output_tokens",
                    Json::signed(*output_tokens),
                ).done();
                f.with("delta", delta).with("usage", usage).done()
            },
            StreamEvent::MessageStop => f.done(),
        }
    }

    /// The event as it is sent.
    pub fn to_sse(&self) -> (r: String)
        ensures
            r@ == sse_text(self@.name(), self@.data()),
            event_fits(self@) ==> {
                let read = json_read(json_text(self@.data()));
                read is Some && read_event(read->0) == Some(self@)
            },
    {
        let data = self.data();
        proof {
            if event_fits(self@) {
                lemma_event_readable(self@);
            }
        }
        let body = to_text(&data);
        proof {
            if event_fits(self@) {
                lemma_event_read_from(self@, json_read(body@)->0);
            }
        }
        sse_event(self.name(), &data)
    }
}

/// A tool call being assembled from its deltas.
#[derive(Debug, Clone)]
pub struct StreamingToolCall {
    /// The backend's index of the call.
    pub index: usize,
    pub id: String,
    pub name: String,
    pub arguments: String,
    /// The index of the content block that the call is sent in.
    pub block_index: u128,
    /// Whether the start of that block has been sent.
    pub started: bool,
}

/// The model of a tool call being assembled.
pub struct CallView {
    pub index: usize,
    pub id: Seq<char>,
    pub name: Seq<char>,
    pub arguments: Seq<char>,
    pub block: nat,
    pub started: bool,
}

impl View for StreamingToolCall {
    type V = CallView;

    open spec fn view(&self) -> CallView {
        CallView {
            index: self.index,
            id: self.id@,
            name: self.name@,
            arguments: self.arguments@,
            block: self.block_index as nat,
            started: self.started,
        }
    }
}

/// The models of a list of tool calls.
pub open spec fn call_views(s: Seq<StreamingToolCall>) -> Seq<CallView> {
    s.map_values(|c: StreamingToolCall| c@)
}

/// The model of a translation in progress: the text block that is open, the next free block
/// index, the tool calls so far, and what the end of the stream will report.
pub struct StreamView {
    pub open_text: Option<nat>,
    pub next: nat,
    pub calls: Seq<CallView>,
    pub stop: Option<Seq<char>>,
    pub usage: (i64, i64),
}

/// The state of a new translation.
pub open spec fn initial_stream() -> StreamView {
    StreamView { open_text: None, next: 0, calls: Seq::empty(), stop: None, usage: (0, 0) }
}

/// Adding a piece of text: it opens a text block unless one is open.
pub open spec fn text_step(v: StreamView, text: Seq<char>) -> (StreamView, Seq<EventView>) {
    if text.len() == 0 {
        (v, Seq::empty())
    } else {
        match v.open_text {
            Some(i) => (v, Seq::empty().push(EventView::TextDelta { index: i, text })),
            None => (
                StreamView { open_text: Some(v.next), next: v.next + 1, ..v },
                Seq::empty().push(EventView::TextStart { index: v.next }).push(
                    EventView::TextDelta { index: v.next, text },
                ),
            ),
        }
    }
}

/// The position of the call with the given index; the number of calls where there is none.
pub open spec fn call_position(calls: Seq<CallView>, index: usize) -> int
    decreases calls.len(),
{
    if calls.len() == 0 || calls[0].index == index {
        0
    } else {
        1 + call_position(calls.skip(1), index)
    }
}

/// Making sure that there is a call with the given index. The first call closes the text block.
pub open spec fn call_step(v: StreamView, index: usize) -> (StreamView, Seq<EventView>) {
    if call_position(v.calls, index) < v.calls.len() {
        (v, Seq::empty())
    } else {
        let call = CallView {
            index,
            id: Seq::empty(),
            name: Seq::empty(),
            arguments: Seq::empty(),
            block: v.next,
            started: false,
        };
        let closes = v.calls.len() == 0 && v.open_text is Some;
        (
            StreamView {
                open_text: if closes {
                    None
                } else {
                    v.open_text
                },
                next: v.next + 1,
                calls: v.calls.push(call),
                ..v
            },
            if closes {
                Seq::empty().push(EventView::BlockStop { index: v.open_text->0 })
            } else {
                Seq::empty()
            },
        )
    }
}

/// The name in a tool call delta.
pub open spec fn delta_name(d: OpenAIStreamToolCallDelta) -> Seq<char> {
    match d.function {
        Some(f) => match f.name {
            Some(n) => n@,
            None => Seq::empty(),
        },
        None => Seq::empty(),
    }
}

/// The arguments in a tool call delta.
pub open spec fn delta_arguments(d: OpenAIStreamToolCallDelta) -> Seq<char> {
    match d.function {
        Some(f) => match f.arguments {
            Some(a) => a@,
            None => Seq::empty(),
        },
        None => Seq::empty(),
    }
}

/// The call's index in a tool call delta.
pub open spec fn delta_index(d: OpenAIStreamToolCallDelta) -> usize {
    match d.index {
        Some(i) => i,
        None => 0,
    }
}

/// What a delta makes of a call: it replaces the identifier and extends name and arguments.
pub open spec fn merged_call(c: CallView, d: OpenAIStreamToolCallDelta) -> CallView {
    CallView {
        id: match d.id {
            Some(id) => id@,
            None => c.id,
        },
        name: c.name + delta_name(d),
        arguments: c.arguments + delta_arguments(d),
        ..c
    }
}

/// The start of a call's block, due once the call has a name. A call without an identifier takes
/// `fresh`.
pub open spec fn started_call(c: CallView, fresh: Seq<char>) -> CallView {
    if !c.started && c.name.len() > 0 {
        CallView {
            id: if c.id.len() == 0 {
                fresh
            } else {
                c.id
            },
            started: true,
            ..c
        }
    } else {
        c
    }
}

/// Applying a tool call delta; `fresh` is the identifier to use where the backend gives none.
pub open spec fn tool_step(
    v: StreamView,
    d: OpenAIStreamToolCallDelta,
    fresh: Seq<char>,
) -> (StreamView, Seq<EventView>) {
    let (w, closing) = call_step(v, delta_index(d));
    let p = call_position(w.calls, delta_index(d));
    let before = merged_call(w.calls[p], d);
    let c = started_call(before, fresh);
    let starting = if c.started && !before.started {
        closing.push(EventView::ToolStart { index: c.block, id: c.id, name: c.name })
    } else {
        closing
    };
    let events = if c.started && delta_arguments(d).len() > 0 {
        starting.push(
            EventView::InputDelta { index: c.block, partial_json: delta_arguments(d) },
        )
    } else {
        starting
    };
    (StreamView { calls: w.calls.update(p, c), ..w }, events)
}

/// Applying tool call deltas in order.
pub open spec fn tools_run(
    v: StreamView,
    ds: Seq<OpenAIStreamToolCallDelta>,
    fresh: Seq<Seq<char>>,
) -> (StreamView, Seq<EventView>)
    decreases ds.len(),
{
    if ds.len() == 0 {
        (v, Seq::empty())
    } else {
        let (w, events) = tools_run(v, ds.drop_last(), fresh);
        let (x, more) = tool_step(w, ds.last(), fresh[ds.len() - 1]);
        (x, events + more)
    }
}

/// The tool call deltas of a choice.
pub open spec fn choice_deltas(c: OpenAIStreamChoice) -> Seq<OpenAIStreamToolCallDelta> {
    match c.delta {
        Some(d) => match d.tool_calls {
            Some(t) => t@,
            None => Seq::empty(),
        },
        None => Seq::empty(),
    }
}

/// The text of a choice.
pub open spec fn choice_text(c: OpenAIStreamChoice) -> Seq<char> {
    match c.delta {
        Some(d) => match d.content {
            Some(t) => t@,
            None => Seq::empty(),
        },
        None => Seq::empty(),
    }
}

/// Noting the finish reason of a choice.
pub open spec fn reason_step(v: StreamView, c: OpenAIStreamChoice) -> StreamView {
    match c.finish_reason {
        Some(r) => StreamView { stop: Some(stop_reason(Some(r@))), ..v },
        None => v,
    }
}

/// Applying a choice: its finish reason, its text, then its tool call deltas.
pub open spec fn choice_step(
    v: StreamView,
    c: OpenAIStreamChoice,
    fresh: Seq<Seq<char>>,
) -> (StreamView, Seq<EventView>) {
    let (w, events) = text_step(reason_step(v, c), choice_text(c));
    let (x, more) = tools_run(w, choice_deltas(c), fresh);
    (x, events + more)
}

/// Applying choices in order.
pub open spec fn choices_run(
    v: StreamView,
    cs: Seq<OpenAIStreamChoice>,
    fresh: Seq<Seq<Seq<char>>>,
) -> (StreamView, Seq<EventView>)
    decreases cs.len(),
{
    if cs.len() == 0 {
        (v, Seq::empty())
    } else {
        let (w, events) = choices_run(v, cs.drop_last(), fresh);
        let (x, more) = choice_step(w, cs.last(), fresh[cs.len() - 1]);
        (x, events + more)
    }
}

/// Noting the usage of a chunk; a count that is missing stays as it was.
pub open spec fn usage_step(v: StreamView, usage: Option<OpenAIUsage>) -> StreamView {
    match usage {
        Some(u) => StreamView {
            usage: (
                match u.prompt_tokens {
                    Some(n) => n,
                    None => v.usage.0,
                },
                match u.completion_tokens {
                    Some(n) => n,
                    None => v.usage.1,
                },
            ),
            ..v
        },
        None => v,
    }
}

/// The choices of a chunk.
pub open spec fn chunk_choices(chunk: OpenAIStreamChunk) -> Seq<OpenAIStreamChoice> {
    match chunk.choices {
        Some(cs) => cs@,
        None => Seq::empty(),
    }
}

/// Applying a chunk.
pub open spec fn chunk_step(
    v: StreamView,
    chunk: OpenAIStreamChunk,
    fresh: Seq<Seq<Seq<char>>>,
) -> (StreamView, Seq<EventView>) {
    choices_run(usage_step(v, chunk.usage), chunk_choices(chunk), fresh)
}

/// The stops of all blocks that were started for tool calls.
pub open spec fn call_stops(calls: Seq<CallView>) -> Seq<EventView>
    decreases calls.len(),
{
    if calls.len() == 0 {
        Seq::empty()
    } else {
        let before = call_stops(calls.drop_last());
        if calls.last().started {
            before.push(EventView::BlockStop { index: calls.last().block })
        } else {
            before
        }
    }
}

/// The events that begin every stream.
pub open spec fn start_events(id: Seq<char>, model: Seq<char>) -> Seq<EventView> {
    Seq::empty().push(EventView::MessageStart { id, model }).push(EventView::Ping)
}

/// The stops of all open blocks; an empty text block where nothing was ever begun.
pub open spec fn closing_events(v: StreamView) -> Seq<EventView> {
    let text = match v.open_text {
        Some(i) => Seq::empty().push(EventView::BlockStop { index: i }),
        None => Seq::empty(),
    };
    let all = text + call_stops(v.calls);
    if v.open_text is None && v.calls.len() == 0 {
        all.push(EventView::TextStart { index: 0 }).push(EventView::BlockStop { index: 0 })
    } else {
        all
    }
}

/// The events that end every stream.
pub open spec fn finish_events(v: StreamView) -> Seq<EventView> {
    closing_events(v).push(
        EventView::MessageDelta {
            stop_reason: match v.stop {
                Some(r) => r,
                None => "end_turn"@,
            },
            output_tokens: v.usage.1,
        },
    ).push(EventView::MessageStop)
}

/// A translation in progress.
#[derive(Debug)]
pub struct StreamTranslator {
    open_text: Option<u128>,
    next_block_index: u128,
    tool_calls: Vec<StreamingToolCall>,
    final_stop_reason: Option<String>,
    final_usage: (i64, i64),
    buffer: String,
}

impl View for StreamTranslator {
    type V = StreamView;

    closed spec fn view(&self) -> StreamView {
        StreamView {
            open_text: match self.open_text {
                Some(i) => Some(i as nat),
                None => None,
            },
            next: self.next_block_index as nat,
            calls: call_views(self.tool_calls@),
            stop: opt_view(self.final_stop_reason),
            usage: self.final_usage,
        }
    }
}

/// How many block indices are in use: one for each tool call, and at most two for text, because
/// only the first tool call closes a text block.
pub open spec fn stream_wf(v: StreamView) -> bool {
    v.next <= v.calls.len() + (if v.calls.len() == 0 {
        0int
    } else {
        1int
    }) + (if v.open_text is Some {
        1int
    } else {
        0int
    })
}

/// Where `call_position` finds a call.
pub proof fn lemma_call_position(calls: Seq<CallView>, index: usize, i: int)
    requires
        0 <= i <= calls.len(),
        forall|j: int| 0 <= j < i ==> calls[j].index != index,
        i == calls.len() || calls[i].index == index,
    ensures
        call_position(calls, index) == i,
    decreases i,
{
    if i > 0 {
        lemma_call_position(calls.skip(1), index, i - 1);
    }
}

/// What `call_position` promises of the position it gives.
pub proof fn lemma_call_position_first(calls: Seq<CallView>, index: usize)
    ensures
        0 <= call_position(calls, index) <= calls.len(),
        forall|j: int| 0 <= j < call_position(calls, index) ==> calls[j].index != index,
        call_position(calls, index) < calls.len() ==> calls[call_position(calls, index)].index
            == index,
    decreases calls.len(),
{
    if calls.len() > 0 && calls[0].index != index {
        lemma_call_position_first(calls.skip(1), index);
        assert forall|j: int| 0 <= j < call_position(calls, index) implies calls[j].index
            != index by {
            if j > 0 {
                assert(calls.skip(1)[j - 1] == calls[j]);
            }
        }
    }
}

/// After `call_step` there is a call with the index.
pub proof fn lemma_call_step(v: StreamView, index: usize)
    ensures
        ({
            let w = call_step(v, index).0;
            let p = call_position(w.calls, index);
            &&& 0 <= p < w.calls.len()
            &&& call_position(v.calls, index) == p
            &&& w.calls[p].index == index
            &&& stream_wf(v) ==> stream_wf(w)
        }),
{
    let w = call_step(v, index).0;
    lemma_call_position_first(v.calls, index);
    if call_position(v.calls, index) == v.calls.len() {
        lemma_call_position(w.calls, index, v.calls.len() as int);
    }
}

/// Appends an event.
fn push_event(out: &mut Vec<StreamEvent>, e: StreamEvent)
    ensures
        event_views(final(out)@) == event_views(old(out)@).push(e@),
{
    out.push(e);
    assert(event_views(out@) =~= event_views(old(out)@).push(e@));
}

impl StreamTranslator {
    /// What has been received of the line that is not complete yet.
    pub closed spec fn pending(&self) -> Seq<char> {
        self.buffer@
    }

    /// The invariant of every translation.
    pub open spec fn wf(&self) -> bool {
        stream_wf(self@)
    }

    /// A new translation.
    pub fn new() -> (r: StreamTranslator)
        ensures
            r@ == initial_stream(),
            r.pending() == Seq::<char>::empty(),
            r.wf(),
    {
        let r = StreamTranslator {
            open_text: None,
            next_block_index: 0,
            tool_calls: Vec::new(),
            final_stop_reason: None,
            final_usage: (0, 0),
            buffer: String::new(),
        };
        assert(call_views(r.tool_calls@) =~= Seq::empty());
        r
    }

    /// The token counts so far.
    pub fn usage(&self) -> (r: (i64, i64))
        ensures
            r == self@.usage,
    {
        self.final_usage
    }

    /// Adds a piece of text.
    fn apply_text(&mut self, text: &str, out: &mut Vec<StreamEvent>)
        requires
            old(self).wf(),
        ensures
            final(self)@ == text_step(old(self)@, text@).0,
            event_views(final(out)@) == event_views(old(out)@) + text_step(old(self)@, text@).1,
            final(self).pending() == old(self).pending(),
            final(self).wf(),
    {
        let ghost before = out@;
        if !text.is_empty() {
            match self.open_text {
                Some(i) => {
                    push_event(out, StreamEvent::TextDelta { index: i, text: text.to_owned() });
                },
                None => {
                    let n = self.tool_calls.len();
                    let i: u128 = self.next_block_index;
                    self.open_text = Some(i);
                    self.next_block_index = i + 1;
                    push_event(out, StreamEvent::TextStart { index: i });
                    push_event(out, StreamEvent::TextDelta { index: i, text: text.to_owned() });
                },
            }
        }
        assert(event_views(out@) =~= event_views(before) + text_step(old(self)@, text@).1);
    }

    /// Makes sure that there is a call with the given index, and gives its position.
    fn ensure_call(&mut self, index: usize, out: &mut Vec<StreamEvent>) -> (p: usize)
        requires
            old(self).wf(),
        ensures
            final(self)@ == call_step(old(self)@, index).0,
            event_views(final(out)@) == event_views(old(out)@) + call_step(old(self)@, index).1,
            p == call_position(final(self)@.calls, index),
            p < final(self)@.calls.len(),
            final(self).pending() == old(self).pending(),
            final(self).wf(),
    {
        let ghost before = out@;
        let n = self.tool_calls.len();
        let mut p: usize = 0;
        while p < n && self.tool_calls[p].index != index
            invariant
                *self == *old(self),
                n == self.tool_calls@.len(),
                p <= n,
                forall|j: int| 0 <= j < p ==> self@.calls[j].index != index,
            decreases n - p,
        {
            p += 1;
        }
        proof {
            lemma_call_position(self@.calls, index, p as int);
            lemma_call_step(old(self)@, index);
        }
        if p == n {
            if n == 0 {
                if let Some(i) = self.open_text {
                    push_event(out, StreamEvent::BlockStop { index: i });
                    self.open_text = None;
                }
            }
            let block: u128 = self.next_block_index;
            self.next_block_index = block + 1;
            self.tool_calls.push(
                StreamingToolCall {
                    index,
                    id: String::new(),
                    name: String::new(),
                    arguments: String::new(),
                    block_index: block,
                    started: false,
                },
            );
            assert(self@.calls =~= call_step(old(self)@, index).0.calls);
        }
        assert(event_views(out@) =~= event_views(before) + call_step(old(self)@, index).1);
        p
    }

    /// Applies a tool call delta; `fresh` is the identifier to use where the backend gives none.
    pub fn apply_tool_delta(
        &mut self,
        d: &OpenAIStreamToolCallDelta,
        fresh: String,
        out: &mut Vec<StreamEvent>,
    )
        requires
            old(self).wf(),
        ensures
            final(self)@ == tool_step(old(self)@, *d, fresh@).0,
            event_views(final(out)@) == event_views(old(out)@) + tool_step(
                old(self)@,
                *d,
                fresh@,
            ).1,
            final(self).pending() == old(self).pending(),
            final(self).wf(),
    {
        let ghost before = event_views(out@);
        let index: usize = match d.index {
            Some(i) => i,
            None => 0,
        };
        let p = self.ensure_call(index, out);
        let ghost w = self@;
        let ghost closing = call_step(old(self)@, index).1;
        let ghost merged = merged_call(w.calls[p as int], *d);
        let mut added = String::new();
        let ghost old_calls = self.tool_calls@;
        let call: &mut StreamingToolCall = &mut self.tool_calls[p];
        if let Some(id) = &d.id {
            call.id = id.clone();
        }
        if let Some(f) = &d.function {
            if let Some(n) = &f.name {
                call.name.append(n);
            }
            if let Some(a) = &f.arguments {
                call.arguments.append(a);
                added = a.clone();
            }
        }
        assert(call@.name =~= merged.name);
        assert(call@.arguments =~= merged.arguments);
        assert(call@ == merged);
        if !call.started && !call.name.as_str().is_empty() {
            call.started = true;
            if call.id.as_str().is_empty() {
                call.id = fresh;
            }
            push_event(
                out,
                StreamEvent::ToolStart {
                    index: call.block_index,
                    id: call.id.clone(),
                    name: call.name.clone(),
                },
            );
        }
        if call.started && !added.as_str().is_empty() {
            push_event(out, StreamEvent::InputDelta { index: call.block_index, partial_json: added });
        }
        assert(call@ == started_call(merged, fresh@));
        assert(self@.calls =~= tool_step(old(self)@, *d, fresh@).0.calls);
        assert(event_views(out@) =~= before + tool_step(old(self)@, *d, fresh@).1);
    }

    /// Applies the tool call deltas of a choice, each under an identifier generated for it, and
    /// gives those identifiers.
    fn apply_tools(
        &mut self,
        ds: &Vec<OpenAIStreamToolCallDelta>,
        out: &mut Vec<StreamEvent>,
    ) -> (fresh: Vec<String>)
        requires
            old(self).wf(),
        ensures
            final(self)@ == tools_run(old(self)@, ds@, views(fresh@)).0,
            event_views(final(out)@) == event_views(old(out)@) + tools_run(
                old(self)@,
                ds@,
                views(fresh@),
            ).1,
            fresh_ids(views(fresh@), ds@.len()),
            final(self).pending() == old(self).pending(),
            final(self).wf(),
    {
        let ghost v = self@;
        let ghost before = event_views(out@);
        let mut fresh: Vec<String> = Vec::new();
        let mut i: usize = 0;
        assert(ds@.take(0) =~= Seq::empty());
        assert(before + Seq::<EventView>::empty() =~= before);
        while i < ds.len()
            invariant
                i <= ds@.len(),
                self@ == tools_run(v, ds@.take(i as int), views(fresh@)).0,
                event_views(out@) == before + tools_run(v, ds@.take(i as int), views(fresh@)).1,
                fresh_ids(views(fresh@), i as nat),
                self.pending() == old(self).pending(),
                self.wf(),
            decreases ds@.len() - i,
        {
            let ghost sofar = views(fresh@);
            let ghost done = tools_run(v, ds@.take(i as int), sofar).1;
            let id = generate_tool_use_id();
            let used = id.clone();
            fresh.push(id);
            assert(views(fresh@) =~= sofar.push(id@));
            assert(ds@.take(i + 1).drop_last() =~= ds@.take(i as int));
            proof {
                lemma_tools_run_ids(v, ds@.take(i as int), sofar, views(fresh@));
            }
            let ghost w = self@;
            self.apply_tool_delta(&ds[i], used, out);
            assert((before + done) + tool_step(w, ds@[i as int], id@).1 =~= before + (done
                + tool_step(w, ds@[i as int], id@).1));
            i += 1;
        }
        assert(ds@.take(i as int) =~= ds@);
        fresh
    }

    /// Applies a choice, and gives the identifiers generated for its tool call deltas.
    fn apply_choice(&mut self, c: &OpenAIStreamChoice, out: &mut Vec<StreamEvent>) -> (fresh: Vec<
        String,
    >)
        requires
            old(self).wf(),
        ensures
            final(self)@ == choice_step(old(self)@, *c, views(fresh@)).0,
            event_views(final(out)@) == event_views(old(out)@) + choice_step(
                old(self)@,
                *c,
                views(fresh@),
            ).1,
            fresh_ids(views(fresh@), choice_deltas(*c).len()),
            final(self).pending() == old(self).pending(),
            final(self).wf(),
    {
        let ghost before = event_views(out@);
        if let Some(r) = &c.finish_reason {
            self.final_stop_reason = Some(translate_stop_reason(Some(r.as_str())));
        }
        let ghost v = reason_step(old(self)@, *c);
        assert(self@ == v);
        let mut fresh: Vec<String> = Vec::new();
        assert(views(fresh@) =~= Seq::empty());
        let ghost text_events = text_step(v, choice_text(*c)).1;
        assert(before + Seq::<EventView>::empty() =~= before);
        if let Some(d) = &c.delta {
            if let Some(text) = &d.content {
                self.apply_text(text, out);
            }
            let ghost w = self@;
            assert(event_views(out@) == before + text_events);
            if let Some(ds) = &d.tool_calls {
                fresh = self.apply_tools(ds, out);
                assert((before + text_events) + tools_run(w, ds@, views(fresh@)).1 =~= before + (
                text_events + tools_run(w, ds@, views(fresh@)).1));
            } else {
                assert(text_events + Seq::<EventView>::empty() =~= text_events);
            }
        } else {
            assert(text_events + Seq::<EventView>::empty() =~= text_events);
        }
        fresh
    }

    /// Applies a chunk and gives the events it leads to. A tool call that the backend gives no
    /// identifier gets a generated one.
    pub fn apply(&mut self, chunk: &OpenAIStreamChunk) -> (r: Vec<StreamEvent>)
        requires
            old(self).wf(),
        ensures
            exists|fresh: Seq<Seq<Seq<char>>>|
                {
                    &&& #[trigger] fresh_for(chunk_choices(*chunk), fresh)
                    &&& final(self)@ == chunk_step(old(self)@, *chunk, fresh).0
                    &&& event_views(r@) == chunk_step(old(self)@, *chunk, fresh).1
                },
            final(self).pending() == old(self).pending(),
            final(self).wf(),
    {
        let mut out: Vec<StreamEvent> = Vec::new();
        assert(event_views(out@) =~= Seq::empty());
        if let Some(u) = &chunk.usage {
            self.final_usage =
            (
                u.prompt_tokens.unwrap_or(self.final_usage.0),
                u.completion_tokens.unwrap_or(self.final_usage.1),
            );
        }
        let ghost v = usage_step(old(self)@, chunk.usage);
        assert(self@ == v);
        let ghost mut fresh: Seq<Seq<Seq<char>>> = Seq::empty();
        if let Some(cs) = &chunk.choices {
            let mut i: usize = 0;
            assert(cs@.take(0) =~= Seq::empty());
            while i < cs.len()
                invariant
                    i <= cs@.len(),
                    self@ == choices_run(v, cs@.take(i as int), fresh).0,
                    event_views(out@) == choices_run(v, cs@.take(i as int), fresh).1,
                    fresh_for(cs@.take(i as int), fresh),
                    self.pending() == old(self).pending(),
                    self.wf(),
                decreases cs@.len() - i,
            {
                assert(cs@.take(i + 1).drop_last() =~= cs@.take(i as int));
                let ghost sofar = fresh;
                let ids = self.apply_choice(&cs[i], &mut out);
                proof {
                    fresh = sofar.push(views(ids@));
                    lemma_choices_run_ids(v, cs@.take(i as int), sofar, fresh);
                    assert forall|k: int| 0 <= k < i + 1 implies fresh_ids(
                        #[trigger] fresh[k],
                        choice_deltas(cs@.take(i + 1)[k]).len(),
                    ) by {
                        if k < i {
                            assert(fresh[k] == sofar[k]);
                            assert(cs@.take(i + 1)[k] == cs@.take(i as int)[k]);
                        }
                    }
                }
                i += 1;
            }
            assert(cs@.take(i as int) =~= cs@);
        }
        assert(fresh_for(chunk_choices(*chunk), fresh));
        out
    }

    /// The events that begin a stream.
    pub fn start(&self, id: &str, model: &str) -> (r: Vec<StreamEvent>)
        ensures
            event_views(r@) == start_events(id@, model@),
    {
        let mut out: Vec<StreamEvent> = Vec::new();
        assert(event_views(out@) =~= Seq::empty());
        push_event(
            &mut out,
            StreamEvent::MessageStart { id: id.to_owned(), model: model.to_owned() },
        );
        push_event(&mut out, StreamEvent::Ping);
        out
    }

    /// The events that end the stream.
    pub fn finish(&self) -> (r: Vec<StreamEvent>)
        ensures
            event_views(r@) == finish_events(self@),
    {
        let mut out: Vec<StreamEvent> = Vec::new();
        assert(event_views(out@) =~= Seq::empty());
        if let Some(i) = self.open_text {
            push_event(&mut out, StreamEvent::BlockStop { index: i });
        }
        let ghost head = event_views(out@);
        let ghost calls = self@.calls;
        let mut i: usize = 0;
        assert(calls.take(0) =~= Seq::empty());
        assert(head + Seq::<EventView>::empty() =~= head);
        while i < self.tool_calls.len()
            invariant
                calls == call_views(self.tool_calls@),
                i <= calls.len(),
                event_views(out@) == head + call_stops(calls.take(i as int)),
            decreases calls.len() - i,
        {
            assert(calls.take(i + 1).drop_last() =~= calls.take(i as int));
            if self.tool_calls[i].started {
                push_event(
                    &mut out,
                    StreamEvent::BlockStop { index: self.tool_calls[i].block_index },
                );
            }
            assert(event_views(out@) =~= head + call_stops(calls.take(i + 1)));
            i += 1;
        }
        assert(calls.take(i as int) =~= calls);
        if self.open_text.is_none() && self.tool_calls.is_empty() {
            push_event(&mut out, StreamEvent::TextStart { index: 0 });
            push_event(&mut out, StreamEvent::BlockStop { index: 0 });
        }
        assert(event_views(out@) =~= closing_events(self@));
        let stop_reason = match &self.final_stop_reason {
            Some(r) => r.clone(),
            None => "end_turn".to_owned(),
        };
        push_event(
            &mut out,
            StreamEvent::MessageDelta { stop_reason, output_tokens: self.final_usage.1 },
        );
        push_event(&mut out, StreamEvent::MessageStop);
        out
    }

    /// Takes in bytes of the backend's stream and gives the data of each line that they complete,
    /// in order. What is left of an incomplete line is kept for the next bytes.
    pub fn feed(&mut self, bytes: &[u8]) -> (r: Vec<String>)
        ensures
            views(r@) == payloads(old(self).pending() + utf8_lossy(bytes@)),
            final(self).pending() == unfinished(old(self).pending() + utf8_lossy(bytes@)),
            final(self)@ == old(self)@,
    {
        let text = decode_lossy(bytes);
        self.feed_text(&text)
    }

    /// Takes in text of the backend's stream and gives the data of each line that it completes.
    pub fn feed_text(&mut self, text: &str) -> (r: Vec<String>)
        ensures
            views(r@) == payloads(old(self).pending() + text@),
            final(self).pending() == unfinished(old(self).pending() + text@),
            final(self)@ == old(self)@,
    {
        let ghost all = self.buffer@ + text@;
        self.buffer.append(text);
        let v = chars_of(&self.buffer);
        let n = v.len();
        let mut out: Vec<String> = Vec::new();
        let mut start: usize = 0;
        let mut end: usize = position_of(v.as_slice(), '\n', 0);
        assert(all.skip(0) =~= all);
        assert(views(out@) =~= Seq::empty());
        assert(Seq::<Seq<char>>::empty() + payloads(all) =~= payloads(all));
        while end < n
            invariant
                v@ == all,
                n == all.len(),
                start <= end <= n,
                end == start + find_char(all.skip(start as int), '\n'),
                payloads(all) == views(out@) + payloads(all.skip(start as int)),
                unfinished(all) == unfinished(all.skip(start as int)),
            decreases n - start,
        {
            let ghost rest = all.skip(start as int);
            let ghost sofar = views(out@);
            assert(all.subrange(start as int, end as int) =~= rest.take(end - start));
            assert(rest.skip(end - start + 1) =~= all.skip(end + 1));
            let line = string_of(vstd::slice::slice_subrange(v.as_slice(), start, end));
            if let Some(data) = data_of_line(&line) {
                out.push(data);
                assert(views(out@) =~= sofar.push(data@));
                assert(sofar + (seq![data@] + payloads(all.skip(end + 1))) =~= sofar.push(data@)
                    + payloads(all.skip(end + 1)));
            }
            start = end + 1;
            end = position_of(v.as_slice(), '\n', start);
        }
        assert(views(out@) + Seq::<Seq<char>>::empty() =~= views(out@));
        assert(all.skip(start as int) =~= all.subrange(start as int, n as int));
        self.buffer = string_of(vstd::slice::slice_subrange(v.as_slice(), start, n));
        out
    }
}

/// Generated identifiers for `n` tool call deltas.
pub open spec fn fresh_ids(ids: Seq<Seq<char>>, n: nat) -> bool {
    &&& ids.len() == n
    &&& forall|i: int| 0 <= i < ids.len() ==> is_tool_use_id(#[trigger] ids[i])
}

/// Generated identifiers for the tool call deltas of each choice.
pub open spec fn fresh_for(cs: Seq<OpenAIStreamChoice>, fresh: Seq<Seq<Seq<char>>>) -> bool {
    &&& fresh.len() == cs.len()
    &&& forall|i: int|
        0 <= i < cs.len() ==> fresh_ids(#[trigger] fresh[i], choice_deltas(cs[i]).len())
}

/// Identifiers beyond the last delta do not matter.
proof fn lemma_tools_run_ids(
    v: StreamView,
    ds: Seq<OpenAIStreamToolCallDelta>,
    a: Seq<Seq<char>>,
    b: Seq<Seq<char>>,
)
    requires
        forall|i: int| 0 <= i < ds.len() ==> a[i] == b[i],
    ensures
        tools_run(v, ds, a) == tools_run(v, ds, b),
    decreases ds.len(),
{
    if ds.len() > 0 {
        lemma_tools_run_ids(v, ds.drop_last(), a, b);
    }
}

/// Identifiers beyond the last choice do not matter.
proof fn lemma_choices_run_ids(
    v: StreamView,
    cs: Seq<OpenAIStreamChoice>,
    a: Seq<Seq<Seq<char>>>,
    b: Seq<Seq<Seq<char>>>,
)
    requires
        forall|i: int| 0 <= i < cs.len() ==> a[i] == b[i],
    ensures
        choices_run(v, cs, a) == choices_run(v, cs, b),
    decreases cs.len(),
{
    if cs.len() > 0 {
        lemma_choices_run_ids(v, cs.drop_last(), a, b);
    }
}

/// The text that `String::from_utf8_lossy` decodes from bytes.
pub uninterp spec fn utf8_lossy(bytes: Seq<u8>) -> Seq<char>;

/// `String::from_utf8_lossy`. The claims: the text is determined by the bytes, and bytes that are
/// valid UTF-8 are decoded as such.
#[verifier::external_body]
fn decode_lossy(bytes: &[u8]) -> (r: String)
    ensures
        r@ == utf8_lossy(bytes@),
        valid_utf8(bytes@) ==> r@ == decode_utf8(bytes@),
{
    String::from_utf8_lossy(bytes).into_owned()
}

/// The data that a line of the stream carries: what follows `data: `, unless that is the mark of
/// the end.
pub open spec fn line_payload(line: Seq<char>) -> Option<Seq<char>> {
    let t = trimmed(line);
    if t == "data: [DONE]"@ {
        None
    } else {
        after_prefix(t, "data: "@)
    }
}

/// The data of all complete lines.
pub open spec fn payloads(s: Seq<char>) -> Seq<Seq<char>>
    decreases s.len(),
{
    let i = find_char(s, '\n');
    if 0 <= i < s.len() {
        let rest = payloads(s.skip(i + 1));
        match line_payload(s.take(i)) {
            Some(p) => seq![p] + rest,
            None => rest,
        }
    } else {
        Seq::empty()
    }
}

/// What follows the last complete line.
pub open spec fn unfinished(s: Seq<char>) -> Seq<char>
    decreases s.len(),
{
    let i = find_char(s, '\n');
    if 0 <= i < s.len() {
        unfinished(s.skip(i + 1))
    } else {
        s
    }
}

/// The data that a line of the stream carries.
pub fn data_of_line(line: &str) -> (r: Option<String>)
    ensures
        opt_view(r) == line_payload(line@),
{
    let t = trim(line);
    if str_eq(&t, "data: [DONE]") {
        None
    } else {
        strip_prefix(&t, "data: ")
    }
}

/// It does not matter where a stream is cut: text that comes in two pieces gives the same data,
/// and leaves the same rest, as if it had come at once.
pub proof fn law_pieces_do_not_matter(a: Seq<char>, b: Seq<char>)
    ensures
        payloads(a + b) == payloads(a) + payloads(unfinished(a) + b),
        unfinished(a + b) == unfinished(unfinished(a) + b),
    decreases a.len(),
{
    lemma_find_char_first(a, '\n');
    lemma_find_char_first(a + b, '\n');
    let i = find_char(a, '\n');
    if 0 <= i < a.len() {
        let rest = a.skip(i + 1);
        let k = find_char(a + b, '\n');
        assert((a + b)[i] == '\n');
        assert(k == i) by {
            if k < i {
                assert((a + b)[k] == a[k]);
            }
        }
        assert((a + b).skip(i + 1) =~= rest + b);
        assert((a + b).take(i) =~= a.take(i));
        law_pieces_do_not_matter(rest, b);
        let tail = payloads(rest) + payloads(unfinished(rest) + b);
        match line_payload(a.take(i)) {
            Some(d) => {
                assert(seq![d] + tail =~= (seq![d] + payloads(rest)) + payloads(
                    unfinished(rest) + b,
                ));
            },
            None => {},
        }
    } else {
        assert(payloads(a) =~= Seq::empty());
        assert(Seq::<Seq<char>>::empty() + payloads(a + b) =~= payloads(a + b));
    }
}

} // verus!
