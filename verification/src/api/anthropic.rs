//! Translation between the Anthropic Messages format and the OpenAI chat format.
use vstd::prelude::*;
use vstd::string::StringExecFns;
use crate::ids::{generate_message_id, generate_tool_use_id, is_message_id, is_tool_use_id};
use crate::json::{
    json_read, json_text, json_views, lemma_lookup_push, no_fields, opt_json_view, parse, readable,
    same_json, text_views, to_text, Json, JsonView, ObjectBuilder, READ_DEPTH,
};
use crate::text::{dec, opt_view, str_eq, views};

verus! {

/// Request metadata; `user_id` is the e-mail address that usage is attributed to.
#[derive(Debug)]
pub struct AnthropicMetadata {
    pub user_id: Option<String>,
}

/// A tool definition in a request.
#[derive(Debug)]
pub struct AnthropicTool {
    pub name: String,
    pub description: Option<String>,
    pub input_schema: Option<Json>,
}

/// A message: its content is a string or an array of content blocks.
#[derive(Debug)]
pub struct AnthropicMessage {
    pub role: String,
    pub content: Json,
}

/// A request. `temperature` and `top_p` hold the decimal text of the number.
#[derive(Debug)]
pub struct AnthropicRequest {
    pub model: String,
    pub max_tokens: u64,
    pub messages: Vec<AnthropicMessage>,
    pub system: Option<Json>,
    pub stream: bool,
    pub temperature: Option<String>,
    pub top_p: Option<String>,
    pub stop_sequences: Option<Vec<String>>,
    pub metadata: Option<AnthropicMetadata>,
    pub tools: Option<Vec<AnthropicTool>>,
}

/// Token counts of a response.
#[derive(Debug, Clone, Copy, PartialEq, Eq)]
pub struct AnthropicUsage {
    pub input_tokens: i64,
    pub output_tokens: i64,
}

/// A complete response.
#[derive(Debug)]
pub struct AnthropicResponse {
    pub id: String,
    pub response_type: &'static str,
    pub role: &'static str,
    pub content: Vec<Json>,
    pub model: String,
    pub stop_reason: Option<String>,
    pub stop_sequence: Option<Json>,
    pub usage: AnthropicUsage,
}

/// Token counts as the backend reports them.
#[derive(Debug, Clone, Copy, PartialEq, Eq)]
pub struct OpenAIUsage {
    pub prompt_tokens: Option<i64>,
    pub completion_tokens: Option<i64>,
}

/// The function part of a tool call.
#[derive(Debug)]
pub struct OpenAIToolCallFunction {
    pub name: Option<String>,
    pub arguments: Option<String>,
}

/// A tool call of the backend.
#[derive(Debug)]
pub struct OpenAIToolCall {
    pub id: Option<String>,
    pub function: Option<OpenAIToolCallFunction>,
}

/// The message of a choice.
#[derive(Debug)]
pub struct OpenAIMessage {
    pub content: Option<String>,
    pub tool_calls: Option<Vec<OpenAIToolCall>>,
}

/// One choice of a backend response.
#[derive(Debug)]
pub struct OpenAIChoice {
    pub message: Option<OpenAIMessage>,
    pub finish_reason: Option<String>,
}

/// A complete backend response.
#[derive(Debug)]
pub struct OpenAIResponse {
    pub choices: Option<Vec<OpenAIChoice>>,
    pub usage: Option<OpenAIUsage>,
}

/// The kind of a content block.
pub open spec fn block_kind(b: JsonView) -> Option<Seq<char>> {
    b.text_field("type"@)
}

/// The text of a text block; `None` for any other block.
pub open spec fn block_text(b: JsonView) -> Option<Seq<char>> {
    if block_kind(b) == Some("text"@) {
        b.text_field("text"@)
    } else {
        None
    }
}

/// The texts of all text blocks, a newline between each and what came before it.
pub open spec fn joined_text(blocks: Seq<JsonView>) -> Seq<char>
    decreases blocks.len(),
{
    if blocks.len() == 0 {
        Seq::empty()
    } else {
        let before = joined_text(blocks.drop_last());
        match block_text(blocks.last()) {
            Some(t) => if before.len() == 0 {
                t
            } else {
                before.push('\n') + t
            },
            None => before,
        }
    }
}

/// The texts of all text blocks, one after the other.
pub open spec fn plain_text(blocks: Seq<JsonView>) -> Seq<char>
    decreases blocks.len(),
{
    if blocks.len() == 0 {
        Seq::empty()
    } else {
        let before = plain_text(blocks.drop_last());
        match block_text(blocks.last()) {
            Some(t) => before + t,
            None => before,
        }
    }
}

/// The text of a system prompt.
pub open spec fn system_text(value: JsonView) -> Seq<char> {
    match value {
        JsonView::Text(s) => s,
        JsonView::Array(blocks) => joined_text(blocks),
        _ => Seq::empty(),
    }
}

/// The text of a message's content.
pub open spec fn content_text(value: JsonView) -> Seq<char> {
    match value {
        JsonView::Text(s) => s,
        JsonView::Array(blocks) => plain_text(blocks),
        _ => Seq::empty(),
    }
}

/// Whether the content is an array with a block of the given kind.
pub open spec fn has_block(value: JsonView, kind: Seq<char>) -> bool {
    match value {
        JsonView::Array(blocks) => exists|i: int|
            0 <= i < blocks.len() && block_kind(#[trigger] blocks[i]) == Some(kind),
        _ => false,
    }
}

/// The kind of a content block.
fn kind_is(b: &Json, kind: &str) -> (r: bool)
    ensures
        r == (block_kind(b@) == Some(kind@)),
{
    match b.get_str("type") {
        Some(k) => str_eq(k, kind),
        None => false,
    }
}

/// The text of a text block.
fn text_of_block(b: &Json) -> (r: Option<&str>)
    ensures
        match r {
            Some(t) => block_text(b@) == Some(t@),
            None => block_text(b@) is None,
        },
{
    if kind_is(b, "text") {
        b.get_str("text")
    } else {
        None
    }
}

/// Extending a prefix of a list of values by one.
proof fn lemma_take_next(blocks: Seq<Json>, i: int)
    requires
        0 <= i < blocks.len(),
    ensures
        json_views(blocks).take(i + 1).drop_last() == json_views(blocks).take(i),
        json_views(blocks).take(i + 1).last() == blocks[i]@,
{
    assert(json_views(blocks).take(i + 1).drop_last() =~= json_views(blocks).take(i));
}

/// The text of a system prompt, given as a string or as an array of text blocks.
pub fn system_to_string(value: &Json) -> (r: String)
    ensures
        r@ == system_text(value@),
{
    broadcast use crate::json::lemma_array_view;

    match value {
        Json::Text(s) => s.clone(),
        Json::Array(blocks) => {
            let mut text = String::new();
            let mut i: usize = 0;
            while i < blocks.len()
                invariant
                    i <= blocks@.len(),
                    text@ == joined_text(json_views(blocks@).take(i as int)),
                decreases blocks@.len() - i,
            {
                proof {
                    lemma_take_next(blocks@, i as int);
                }
                if let Some(t) = text_of_block(&blocks[i]) {
                    if !text.as_str().is_empty() {
                        text.push('\n');
                        text.append(t);
                    } else {
                        text.append(t);
                        assert(Seq::<char>::empty() + t@ =~= t@);
                        assert(text@ =~= t@);
                    }
                }
                i += 1;
            }
            assert(json_views(blocks@).take(i as int) =~= json_views(blocks@));
            text
        },
        _ => String::new(),
    }
}

/// The text of a message's content; blocks that are not text are left out.
pub fn content_to_string(value: &Json) -> (r: String)
    ensures
        r@ == content_text(value@),
{
    broadcast use crate::json::lemma_array_view;

    match value {
        Json::Text(s) => s.clone(),
        Json::Array(blocks) => {
            let mut text = String::new();
            let mut i: usize = 0;
            while i < blocks.len()
                invariant
                    i <= blocks@.len(),
                    text@ == plain_text(json_views(blocks@).take(i as int)),
                decreases blocks@.len() - i,
            {
                proof {
                    lemma_take_next(blocks@, i as int);
                }
                if let Some(t) = text_of_block(&blocks[i]) {
                    text.append(t);
                }
                i += 1;
            }
            assert(json_views(blocks@).take(i as int) =~= json_views(blocks@));
            text
        },
        _ => String::new(),
    }
}

/// Whether the content is an array with a block of the given kind.
fn content_has(value: &Json, kind: &str) -> (r: bool)
    ensures
        r == has_block(value@, kind@),
{
    broadcast use crate::json::lemma_array_view;

    match value {
        Json::Array(blocks) => {
            let ghost items = json_views(blocks@);
            let mut i: usize = 0;
            while i < blocks.len()
                invariant
                    value@ == JsonView::Array(items),
                    items == json_views(blocks@),
                    i <= blocks@.len(),
                    forall|j: int| 0 <= j < i ==> block_kind(#[trigger] items[j]) != Some(kind@),
                decreases blocks@.len() - i,
            {
                assert(items[i as int] == blocks@[i as int]@);
                if kind_is(&blocks[i], kind) {
                    return true;
                }
                i += 1;
            }
            false
        },
        _ => false,
    }
}

/// Whether the content holds a tool use.
pub fn content_has_tool_use(value: &Json) -> (r: bool)
    ensures
        r == has_block(value@, "tool_use"@),
{
    content_has(value, "tool_use")
}

/// Whether the content holds a tool result.
pub fn content_has_tool_result(value: &Json) -> (r: bool)
    ensures
        r == has_block(value@, "tool_result"@),
{
    content_has(value, "tool_result")
}

/// The kinds of block that carry meaning are told apart by their names.
proof fn lemma_kinds_differ()
    ensures
        "text"@ != "tool_use"@,
        "text"@ != "tool_result"@,
        "user"@ != "assistant"@,
{
    reveal_strlit("text");
    reveal_strlit("tool_use");
    reveal_strlit("tool_result");
    reveal_strlit("user");
    reveal_strlit("assistant");
    assert("text"@.len() == 4);
    assert("tool_use"@.len() == 8);
    assert("tool_result"@.len() == 11);
    assert("user"@.len() == 4);
    assert("assistant"@.len() == 9);
}

/// The text under `key`, or the empty text.
pub open spec fn text_or_empty(b: JsonView, key: Seq<char>) -> Seq<char> {
    match b.text_field(key) {
        Some(s) => s,
        None => Seq::empty(),
    }
}

/// The text under `key`, or the empty text.
fn get_text_or_empty(b: &Json, key: &str) -> (r: String)
    ensures
        r@ == text_or_empty(b@, key@),
{
    match b.get_str(key) {
        Some(s) => s.to_owned(),
        None => String::new(),
    }
}

/// The OpenAI tool call that stands for a tool use block.
pub open spec fn tool_call_of(b: JsonView) -> JsonView {
    let input = match b.field("input"@) {
        Some(v) => v,
        None => JsonView::Object(no_fields()),
    };
    let function = no_fields().push(("name"@, JsonView::Text(text_or_empty(b, "name"@)))).push(
        ("arguments"@, JsonView::Text(json_text(input))),
    );
    JsonView::Object(
        no_fields().push(("id"@, JsonView::Text(text_or_empty(b, "id"@)))).push(
            ("type"@, JsonView::Text("function"@)),
        ).push(("function"@, JsonView::Object(function))),
    )
}

/// The tool calls of all tool use blocks, in order.
pub open spec fn tool_calls_of(blocks: Seq<JsonView>) -> Seq<JsonView>
    decreases blocks.len(),
{
    if blocks.len() == 0 {
        Seq::empty()
    } else {
        let before = tool_calls_of(blocks.drop_last());
        if block_kind(blocks.last()) == Some("tool_use"@) {
            before.push(tool_call_of(blocks.last()))
        } else {
            before
        }
    }
}

/// A message with a role and a text.
pub open spec fn text_message(role: Seq<char>, content: Seq<char>) -> JsonView {
    JsonView::Object(
        no_fields().push(("role"@, JsonView::Text(role))).push(("content"@, JsonView::Text(content))),
    )
}

/// The OpenAI message that stands for an assistant message with tool uses.
pub open spec fn assistant_message(content: JsonView) -> JsonView {
    match content {
        JsonView::Array(blocks) => {
            let text = plain_text(blocks);
            let calls = tool_calls_of(blocks);
            let head = no_fields().push(("role"@, JsonView::Text("assistant"@))).push(
                (
                    "content"@,
                    if text.len() > 0 {
                        JsonView::Text(text)
                    } else {
                        JsonView::Null
                    },
                ),
            );
            JsonView::Object(
                if calls.len() > 0 {
                    head.push(("tool_calls"@, JsonView::Array(calls)))
                } else {
                    head
                },
            )
        },
        _ => text_message("assistant"@, content_text(content)),
    }
}

/// A message with a role and a text.
fn make_text_message(role: &str, content: String) -> (r: Json)
    ensures
        r@ == text_message(role@, content@),
{
    ObjectBuilder::new().with("role", Json::str(role)).with("content", Json::Text(content)).done()
}

/// Whether the arguments of a tool call are read as a value that holds what `input` holds.
pub open spec fn arguments_read_as(call: JsonView, input: JsonView) -> bool {
    match call.field("function"@) {
        Some(f) => match f.text_field("arguments"@) {
            Some(text) => json_read(text) is Some && same_json(input, json_read(text)->0),
            None => false,
        },
        None => false,
    }
}

/// Whether the input of every tool use, where it can be read back at all, is read from the
/// arguments of its tool call.
pub open spec fn inputs_are_kept(blocks: Seq<JsonView>) -> bool {
    forall|i: int|
        #![trigger blocks[i]]
        0 <= i < blocks.len() && blocks[i].text_field("type"@) == Some("tool_use"@)
            && blocks[i].field("input"@) is Some && readable(
            blocks[i].field("input"@)->0,
            READ_DEPTH as nat,
        ) ==> arguments_read_as(tool_call_of(blocks[i]), blocks[i].field("input"@)->0)
}

/// The OpenAI tool call that stands for a tool use block.
fn make_tool_call(b: &Json) -> (r: Json)
    ensures
        r@ == tool_call_of(b@),
        b@.field("input"@) is Some && readable(b@.field("input"@)->0, READ_DEPTH as nat)
            ==> arguments_read_as(r@, b@.field("input"@)->0),
{
    let arguments = match b.get("input") {
        Some(v) => to_text(v),
        None => to_text(&ObjectBuilder::new().done()),
    };
    let function = ObjectBuilder::new().with("name", Json::Text(get_text_or_empty(b, "name"))).with(
        "arguments",
        Json::Text(arguments),
    ).done();
    proof {
        broadcast use lemma_lookup_push;

        reveal_strlit("id");
        reveal_strlit("type");
        reveal_strlit("function");
        reveal_strlit("name");
        reveal_strlit("arguments");
        assert("id"@.len() == 2 && "type"@.len() == 4 && "function"@.len() == 8);
        assert("name"@.len() == 4 && "arguments"@.len() == 9);
    }
    ObjectBuilder::new().with("id", Json::Text(get_text_or_empty(b, "id"))).with(
        "type",
        Json::str("function"),
    ).with("function", function).done()
}

/// The OpenAI message that stands for an assistant message with tool uses.
pub fn translate_assistant_tool_use(content: &Json) -> (r: Json)
    ensures
        r@ == assistant_message(content@),
        content@ matches JsonView::Array(blocks) ==> inputs_are_kept(blocks),
{
    broadcast use crate::json::lemma_array_view;

    match content {
        Json::Array(blocks) => {
            let mut text_parts = String::new();
            let mut tool_calls: Vec<Json> = Vec::new();
            let mut i: usize = 0;
            while i < blocks.len()
                invariant
                    i <= blocks@.len(),
                    text_parts@ == plain_text(json_views(blocks@).take(i as int)),
                    json_views(tool_calls@) == tool_calls_of(json_views(blocks@).take(i as int)),
                    inputs_are_kept(json_views(blocks@).take(i as int)),
                decreases blocks@.len() - i,
            {
                proof {
                    lemma_take_next(blocks@, i as int);
                    lemma_kinds_differ();
                }
                let ghost head = json_views(blocks@).take(i as int);
                let ghost next = json_views(blocks@).take(i + 1);
                if let Some(t) = text_of_block(&blocks[i]) {
                    text_parts.append(t);
                }
                if kind_is(&blocks[i], "tool_use") {
                    let call = make_tool_call(&blocks[i]);
                    let ghost before = tool_calls@;
                    tool_calls.push(call);
                    assert(json_views(tool_calls@) =~= json_views(before).push(call@));
                }
                assert(inputs_are_kept(next)) by {
                    assert forall|k: int|
                        #![trigger next[k]]
                        0 <= k < next.len() && next[k].text_field("type"@) == Some("tool_use"@)
                            && next[k].field("input"@) is Some && readable(
                            next[k].field("input"@)->0,
                            READ_DEPTH as nat,
                        ) implies arguments_read_as(
                        tool_call_of(next[k]),
                        next[k].field("input"@)->0,
                    ) by {
                        if k < i {
                            assert(head[k] == next[k]);
                        }
                    }
                }
                i += 1;
            }
            assert(json_views(blocks@).take(i as int) =~= json_views(blocks@));
            let text = if !text_parts.as_str().is_empty() {
                Json::Text(text_parts)
            } else {
                Json::Null
            };
            let head = ObjectBuilder::new().with("role", Json::str("assistant")).with(
                "content",
                text,
            );
            if !tool_calls.is_empty() {
                head.with("tool_calls", Json::array(tool_calls)).done()
            } else {
                head.done()
            }
        },
        _ => make_text_message("assistant", content_to_string(content)),
    }
}

/// The OpenAI message that stands for a tool result block.
pub open spec fn tool_message(b: JsonView) -> JsonView {
    let content = match b.field("content"@) {
        Some(v) => content_text(v),
        None => Seq::empty(),
    };
    JsonView::Object(
        no_fields().push(("role"@, JsonView::Text("tool"@))).push(
            ("tool_call_id"@, JsonView::Text(text_or_empty(b, "tool_use_id"@))),
        ).push(("content"@, JsonView::Text(content))),
    )
}

/// `messages`, followed by a user message with `text` unless the text is empty.
pub open spec fn flushed(messages: Seq<JsonView>, text: Seq<char>) -> Seq<JsonView> {
    if text.len() > 0 {
        messages.push(text_message("user"@, text))
    } else {
        messages
    }
}

/// The messages that a prefix of the blocks gives, and the text not yet sent.
pub open spec fn tool_result_run(blocks: Seq<JsonView>) -> (Seq<JsonView>, Seq<char>)
    decreases blocks.len(),
{
    if blocks.len() == 0 {
        (Seq::empty(), Seq::empty())
    } else {
        let (messages, text) = tool_result_run(blocks.drop_last());
        let b = blocks.last();
        if block_kind(b) == Some("tool_result"@) {
            (flushed(messages, text).push(tool_message(b)), Seq::empty())
        } else {
            match block_text(b) {
                Some(t) => (messages, text + t),
                None => (messages, text),
            }
        }
    }
}

/// The OpenAI messages that stand for a user message with tool results: one `tool` message for
/// each result, and the texts before, between and after them as user messages.
pub open spec fn user_messages(content: JsonView) -> Seq<JsonView> {
    match content {
        JsonView::Array(blocks) => {
            let (messages, text) = tool_result_run(blocks);
            flushed(messages, text)
        },
        _ => Seq::empty().push(text_message("user"@, content_text(content))),
    }
}

/// Appends a value to a list.
fn push_json(v: &mut Vec<Json>, j: Json)
    ensures
        json_views(final(v)@) == json_views(old(v)@).push(j@),
{
    v.push(j);
    assert(json_views(v@) =~= json_views(old(v)@).push(j@));
}

/// The OpenAI message that stands for a tool result block.
fn make_tool_message(b: &Json) -> (r: Json)
    ensures
        r@ == tool_message(b@),
{
    let content = match b.get("content") {
        Some(v) => content_to_string(v),
        None => String::new(),
    };
    ObjectBuilder::new().with("role", Json::str("tool")).with(
        "tool_call_id",
        Json::Text(get_text_or_empty(b, "tool_use_id")),
    ).with("content", Json::Text(content)).done()
}

/// The OpenAI messages that stand for a user message with tool results.
pub fn translate_user_tool_result(content: &Json) -> (r: Vec<Json>)
    ensures
        json_views(r@) == user_messages(content@),
{
    broadcast use crate::json::lemma_array_view;

    let mut messages: Vec<Json> = Vec::new();
    assert(json_views(messages@) =~= Seq::empty());
    match content {
        Json::Array(blocks) => {
            let mut text_parts = String::new();
            let mut i: usize = 0;
            while i < blocks.len()
                invariant
                    i <= blocks@.len(),
                    (json_views(messages@), text_parts@) == tool_result_run(
                        json_views(blocks@).take(i as int),
                    ),
                decreases blocks@.len() - i,
            {
                proof {
                    lemma_take_next(blocks@, i as int);
                    lemma_kinds_differ();
                }
                if kind_is(&blocks[i], "tool_result") {
                    if !text_parts.as_str().is_empty() {
                        push_json(&mut messages, make_text_message("user", text_parts));
                        text_parts = String::new();
                    }
                    assert(text_parts@ =~= Seq::empty());
                    push_json(&mut messages, make_tool_message(&blocks[i]));
                } else if let Some(t) = text_of_block(&blocks[i]) {
                    text_parts.append(t);
                }
                i += 1;
            }
            assert(json_views(blocks@).take(i as int) =~= json_views(blocks@));
            if !text_parts.as_str().is_empty() {
                push_json(&mut messages, make_text_message("user", text_parts));
            }
        },
        _ => {
            push_json(&mut messages, make_text_message("user", content_to_string(content)));
        },
    }
    messages
}

/// The OpenAI messages that stand for one message.
pub open spec fn messages_of(m: AnthropicMessage) -> Seq<JsonView> {
    if m.role@ == "assistant"@ && has_block(m.content@, "tool_use"@) {
        Seq::empty().push(assistant_message(m.content@))
    } else if m.role@ == "user"@ && has_block(m.content@, "tool_result"@) {
        user_messages(m.content@)
    } else {
        Seq::empty().push(text_message(m.role@, content_text(m.content@)))
    }
}

/// The OpenAI messages that stand for a list of messages, in order.
pub open spec fn all_messages(ms: Seq<AnthropicMessage>) -> Seq<JsonView>
    decreases ms.len(),
{
    if ms.len() == 0 {
        Seq::empty()
    } else {
        all_messages(ms.drop_last()) + messages_of(ms.last())
    }
}

/// The message that carries the system prompt; none where the prompt has no text.
pub open spec fn system_messages(system: Option<Json>) -> Seq<JsonView> {
    match system {
        Some(v) => if system_text(v@).len() > 0 {
            Seq::empty().push(text_message("system"@, system_text(v@)))
        } else {
            Seq::empty()
        },
        None => Seq::empty(),
    }
}

/// The OpenAI tool that stands for a tool definition.
pub open spec fn openai_tool(t: AnthropicTool) -> JsonView {
    let f = no_fields().push(("name"@, JsonView::Text(t.name@)));
    let f = match t.description {
        Some(d) => f.push(("description"@, JsonView::Text(d@))),
        None => f,
    };
    let f = match t.input_schema {
        Some(s) => f.push(("parameters"@, s@)),
        None => f,
    };
    JsonView::Object(
        no_fields().push(("type"@, JsonView::Text("function"@))).push(
            ("function"@, JsonView::Object(f)),
        ),
    )
}

/// The OpenAI chat request that stands for a request.
pub open spec fn openai_request(req: AnthropicRequest) -> JsonView {
    let f = no_fields().push(("model"@, JsonView::Text(req.model@))).push(
        ("max_tokens"@, JsonView::Number(dec(req.max_tokens as nat))),
    ).push(
        (
            "messages"@,
            JsonView::Array(system_messages(req.system) + all_messages(req.messages@)),
        ),
    ).push(("stream"@, JsonView::Bool(req.stream)));
    let f = match req.temperature {
        Some(t) => f.push(("temperature"@, JsonView::Number(t@))),
        None => f,
    };
    let f = match req.top_p {
        Some(t) => f.push(("top_p"@, JsonView::Number(t@))),
        None => f,
    };
    let f = match req.stop_sequences {
        Some(v) => f.push(("stop"@, JsonView::Array(text_views(v@)))),
        None => f,
    };
    let f = match req.tools {
        Some(v) => f.push(
            ("tools"@, JsonView::Array(v@.map_values(|t: AnthropicTool| openai_tool(t)))),
        ),
        None => f,
    };
    let f = if req.stream {
        f.push(
            (
                "stream_options"@,
                JsonView::Object(no_fields().push(("include_usage"@, JsonView::Bool(true)))),
            ),
        )
    } else {
        f
    };
    JsonView::Object(f)
}

/// Appends all messages that stand for one message.
fn push_messages_of(out: &mut Vec<Json>, m: &AnthropicMessage)
    ensures
        json_views(final(out)@) == json_views(old(out)@) + messages_of(*m),
{
    if str_eq(&m.role, "assistant") && content_has_tool_use(&m.content) {
        push_json(out, translate_assistant_tool_use(&m.content));
    } else if str_eq(&m.role, "user") && content_has_tool_result(&m.content) {
        let mut more = translate_user_tool_result(&m.content);
        let ghost added = more@;
        out.append(&mut more);
        assert(json_views(out@) =~= json_views(old(out)@) + json_views(added));
    } else {
        push_json(out, make_text_message(&m.role, content_to_string(&m.content)));
    }
    assert(json_views(out@) =~= json_views(old(out)@) + messages_of(*m));
}

/// The OpenAI tool that stands for a tool definition.
fn make_tool(t: &AnthropicTool) -> (r: Json)
    ensures
        r@ == openai_tool(*t),
{
    let mut f = ObjectBuilder::new().with("name", Json::str(&t.name));
    if let Some(d) = &t.description {
        f = f.with("description", Json::str(d));
    }
    if let Some(s) = &t.input_schema {
        f = f.with("parameters", s.copy());
    }
    ObjectBuilder::new().with("type", Json::str("function")).with("function", f.done()).done()
}

/// The OpenAI tools that stand for the tool definitions.
fn make_tools(tools: &Vec<AnthropicTool>) -> (r: Json)
    ensures
        r@ == JsonView::Array(tools@.map_values(|t: AnthropicTool| openai_tool(t))),
{
    let mut out: Vec<Json> = Vec::new();
    let mut i: usize = 0;
    while i < tools.len()
        invariant
            i == out@.len(),
            i <= tools@.len(),
            forall|j: int| 0 <= j < i ==> out@[j]@ == openai_tool(tools@[j]),
        decreases tools@.len() - i,
    {
        out.push(make_tool(&tools[i]));
        i += 1;
    }
    assert(json_views(out@) =~= tools@.map_values(|t: AnthropicTool| openai_tool(t)));
    Json::array(out)
}

/// The OpenAI chat request that stands for a request.
pub fn translate_request(req: &AnthropicRequest) -> (r: Json)
    ensures
        r@ == openai_request(*req),
{
    let mut messages: Vec<Json> = Vec::new();
    assert(json_views(messages@) =~= Seq::empty());
    if let Some(system) = &req.system {
        let text = system_to_string(system);
        if !text.as_str().is_empty() {
            push_json(&mut messages, make_text_message("system", text));
        }
    }
    assert(json_views(messages@) =~= system_messages(req.system));
    let mut i: usize = 0;
    assert(req.messages@.take(0) =~= Seq::empty());
    assert(system_messages(req.system) + all_messages(req.messages@.take(0)) =~= system_messages(
        req.system,
    ));
    while i < req.messages.len()
        invariant
            i <= req.messages@.len(),
            json_views(messages@) == system_messages(req.system) + all_messages(
                req.messages@.take(i as int),
            ),
        decreases req.messages@.len() - i,
    {
        assert(req.messages@.take(i + 1).drop_last() =~= req.messages@.take(i as int));
        let ghost before = json_views(messages@);
        push_messages_of(&mut messages, &req.messages[i]);
        assert(json_views(messages@) =~= system_messages(req.system) + all_messages(
            req.messages@.take(i + 1),
        ));
        i += 1;
    }
    assert(req.messages@.take(i as int) =~= req.messages@);
    let mut body = ObjectBuilder::new().with("model", Json::str(&req.model)).with(
        "max_tokens",
        Json::unsigned(req.max_tokens as u128),
    ).with("messages", Json::array(messages)).with("stream", Json::Bool(req.stream));
    if let Some(t) = &req.temperature {
        body = body.with("temperature", Json::Number(t.clone()));
    }
    if let Some(t) = &req.top_p {
        body = body.with("top_p", Json::Number(t.clone()));
    }
    if let Some(v) = &req.stop_sequences {
        body = body.with("stop", Json::strings(v));
    }
    if let Some(v) = &req.tools {
        body = body.with("tools", make_tools(v));
    }
    if req.stream {
        body = body.with(
            "stream_options",
            ObjectBuilder::new().with("include_usage", Json::Bool(true)).done(),
        );
    }
    body.done()
}

/// The Anthropic stop reason that stands for an OpenAI finish reason.
pub open spec fn stop_reason(finish_reason: Option<Seq<char>>) -> Seq<char> {
    match finish_reason {
        Some(r) => if r == "stop"@ {
            "end_turn"@
        } else if r == "length"@ {
            "max_tokens"@
        } else if r == "tool_calls"@ {
            "tool_use"@
        } else {
            r
        },
        None => "end_turn"@,
    }
}

/// The view of an optional borrowed string.
pub open spec fn opt_str_view(o: Option<&str>) -> Option<Seq<char>> {
    match o {
        Some(s) => Some(s@),
        None => None,
    }
}

/// The Anthropic stop reason that stands for an OpenAI finish reason.
pub fn translate_stop_reason(finish_reason: Option<&str>) -> (r: String)
    ensures
        r@ == stop_reason(opt_str_view(finish_reason)),
{
    match finish_reason {
        Some(reason) => if str_eq(reason, "stop") {
            "end_turn".to_owned()
        } else if str_eq(reason, "length") {
            "max_tokens".to_owned()
        } else if str_eq(reason, "tool_calls") {
            "tool_use".to_owned()
        } else {
            reason.to_owned()
        },
        None => "end_turn".to_owned(),
    }
}

/// The token counts of a usage report; a count that is missing is zero.
pub open spec fn usage_counts(usage: Option<OpenAIUsage>) -> (i64, i64) {
    match usage {
        Some(u) => (
            match u.prompt_tokens {
                Some(n) => n,
                None => 0,
            },
            match u.completion_tokens {
                Some(n) => n,
                None => 0,
            },
        ),
        None => (0, 0),
    }
}

/// The token counts of a backend response; zeros where it could not be read (`None`).
pub fn extract_usage(resp: Option<&OpenAIResponse>) -> (r: (i64, i64))
    ensures
        r == (match resp {
            Some(p) => usage_counts(p.usage),
            None => (0i64, 0i64),
        }),
{
    match resp {
        Some(p) => match p.usage {
            Some(u) => (u.prompt_tokens.unwrap_or(0), u.completion_tokens.unwrap_or(0)),
            None => (0, 0),
        },
        None => (0, 0),
    }
}

/// The content block for a text.
pub open spec fn text_block(text: Seq<char>) -> JsonView {
    JsonView::Object(
        no_fields().push(("type"@, JsonView::Text("text"@))).push(("text"@, JsonView::Text(text))),
    )
}

/// Whether the backend gave the call no identifier of its own.
pub open spec fn lacks_id(tc: OpenAIToolCall) -> bool {
    match tc.id {
        Some(id) => id@.len() == 0,
        None => true,
    }
}

/// The arguments of a tool call; an empty object where they are missing.
pub open spec fn call_arguments(tc: OpenAIToolCall) -> Seq<char> {
    match tc.function {
        Some(f) => match f.arguments {
            Some(a) => a@,
            None => "{}"@,
        },
        None => "{}"@,
    }
}

/// The content block for a tool call with the given identifier, whose arguments were read as
/// `input`. Arguments that are not JSON count as an empty object.
pub open spec fn read_tool_use(
    tc: OpenAIToolCall,
    id: Seq<char>,
    input: Option<JsonView>,
) -> JsonView {
    let name = match tc.function {
        Some(f) => match f.name {
            Some(n) => n@,
            None => Seq::empty(),
        },
        None => Seq::empty(),
    };
    JsonView::Object(
        no_fields().push(("type"@, JsonView::Text("tool_use"@))).push(
            ("id"@, JsonView::Text(id)),
        ).push(("name"@, JsonView::Text(name))).push(
            (
                "input"@,
                match input {
                    Some(v) => v,
                    None => JsonView::Object(no_fields()),
                },
            ),
        ),
    )
}

/// The content block for a tool call with the given identifier.
pub open spec fn tool_use_block(tc: OpenAIToolCall, id: Seq<char>) -> JsonView {
    read_tool_use(tc, id, json_read(call_arguments(tc)))
}

/// The message of the first choice.
pub open spec fn first_message(resp: OpenAIResponse) -> Option<OpenAIMessage> {
    match resp.choices {
        Some(cs) => if cs@.len() > 0 {
            cs@[0].message
        } else {
            None
        },
        None => None,
    }
}

/// The finish reason of the first choice.
pub open spec fn first_finish_reason(resp: OpenAIResponse) -> Option<Seq<char>> {
    match resp.choices {
        Some(cs) => if cs@.len() > 0 {
            opt_view(cs@[0].finish_reason)
        } else {
            None
        },
        None => None,
    }
}

/// The tool calls of the first choice.
pub open spec fn first_tool_calls(resp: OpenAIResponse) -> Seq<OpenAIToolCall> {
    match first_message(resp) {
        Some(m) => match m.tool_calls {
            Some(v) => v@,
            None => Seq::empty(),
        },
        None => Seq::empty(),
    }
}

/// The text of the first choice.
pub open spec fn first_text(resp: OpenAIResponse) -> Seq<char> {
    match first_message(resp) {
        Some(m) => match m.content {
            Some(t) => t@,
            None => Seq::empty(),
        },
        None => Seq::empty(),
    }
}

/// The content blocks for tool calls with the given identifiers.
pub open spec fn tool_use_blocks(tcs: Seq<OpenAIToolCall>, ids: Seq<Seq<char>>) -> Seq<JsonView> {
    Seq::new(tcs.len(), |i: int| tool_use_block(tcs[i], ids[i]))
}

/// The content of a response: the text unless it is empty, then the tool calls; an empty text
/// block where there would be nothing.
pub open spec fn response_content(resp: OpenAIResponse, ids: Seq<Seq<char>>) -> Seq<JsonView> {
    let text = if first_text(resp).len() > 0 {
        Seq::empty().push(text_block(first_text(resp)))
    } else {
        Seq::empty()
    };
    let all = text + tool_use_blocks(first_tool_calls(resp), ids);
    if all.len() == 0 {
        all.push(text_block(""@))
    } else {
        all
    }
}

/// Whether `ids` are identifiers for the calls: the backend's own, or a generated one where the
/// backend gave none.
pub open spec fn tool_ids_for(tcs: Seq<OpenAIToolCall>, ids: Seq<Seq<char>>) -> bool {
    &&& ids.len() == tcs.len()
    &&& forall|i: int|
        0 <= i < tcs.len() ==> if lacks_id(tcs[i]) {
            is_tool_use_id(#[trigger] ids[i])
        } else {
            tcs[i].id is Some && ids[i] == tcs[i].id->0@
        }
}

/// Whether `r` is the response for `resp` under the given identifiers.
pub open spec fn is_response(
    r: AnthropicResponse,
    resp: OpenAIResponse,
    model: Seq<char>,
    msg_id: Seq<char>,
    ids: Seq<Seq<char>>,
) -> bool {
    let (input_tokens, output_tokens) = usage_counts(resp.usage);
    &&& r.id@ == msg_id
    &&& r.response_type@ == "message"@
    &&& r.role@ == "assistant"@
    &&& json_views(r.content@) == response_content(resp, ids)
    &&& r.model@ == model
    &&& opt_view(r.stop_reason) == Some(stop_reason(first_finish_reason(resp)))
    &&& r.stop_sequence is None
    &&& r.usage.input_tokens == input_tokens
    &&& r.usage.output_tokens == output_tokens
}

/// The content block for a text.
pub fn make_text_block(text: &str) -> (r: Json)
    ensures
        r@ == text_block(text@),
{
    ObjectBuilder::new().with("type", Json::str("text")).with("text", Json::str(text)).done()
}

/// The content block for a tool call whose arguments were read as `input`.
pub fn make_read_tool_use(tc: &OpenAIToolCall, id: &str, input: Option<Json>) -> (r: Json)
    ensures
        r@ == read_tool_use(*tc, id@, opt_json_view(input)),
{
    let name = match &tc.function {
        Some(f) => match &f.name {
            Some(n) => n.clone(),
            None => String::new(),
        },
        None => String::new(),
    };
    let value = match input {
        Some(v) => v,
        None => ObjectBuilder::new().done(),
    };
    ObjectBuilder::new().with("type", Json::str("tool_use")).with("id", Json::str(id)).with(
        "name",
        Json::Text(name),
    ).with("input", value).done()
}

/// The content block for a tool call with the given identifier.
pub fn make_tool_use_block(tc: &OpenAIToolCall, id: &str) -> (r: Json)
    ensures
        r@ == tool_use_block(*tc, id@),
{
    let arguments = match &tc.function {
        Some(f) => match &f.arguments {
            Some(a) => a.clone(),
            None => "{}".to_owned(),
        },
        None => "{}".to_owned(),
    };
    make_read_tool_use(tc, id, parse(&arguments))
}

/// Identifiers for tool calls: the backend's own, or a generated one where it gave none.
fn choose_tool_ids(tcs: &Vec<OpenAIToolCall>) -> (r: Vec<String>)
    ensures
        tool_ids_for(tcs@, views(r@)),
{
    let mut ids: Vec<String> = Vec::new();
    let mut i: usize = 0;
    while i < tcs.len()
        invariant
            i == ids@.len(),
            i <= tcs@.len(),
            forall|j: int|
                0 <= j < i ==> if lacks_id(tcs@[j]) {
                    is_tool_use_id(#[trigger] ids@[j]@)
                } else {
                    tcs@[j].id is Some && ids@[j]@ == tcs@[j].id->0@
                },
        decreases tcs@.len() - i,
    {
        let own = match &tcs[i].id {
            Some(id) => id.clone(),
            None => String::new(),
        };
        if own.as_str().is_empty() {
            ids.push(generate_tool_use_id());
        } else {
            ids.push(own);
        }
        i += 1;
    }
    ids
}

/// The response for a backend response, under the given identifiers.
pub fn translate_openai_response_with(
    resp: &OpenAIResponse,
    requested_model: &str,
    msg_id: String,
    tool_ids: &Vec<String>,
) -> (r: AnthropicResponse)
    requires
        tool_ids@.len() == first_tool_calls(*resp).len(),
    ensures
        is_response(r, *resp, requested_model@, msg_id@, views(tool_ids@)),
{
    let ghost ids = views(tool_ids@);
    let choice: Option<&OpenAIChoice> = match &resp.choices {
        Some(cs) => if cs.len() > 0 {
            Some(&cs[0])
        } else {
            None
        },
        None => None,
    };
    let mut content: Vec<Json> = Vec::new();
    let mut reason = translate_stop_reason(None);
    assert(json_views(content@) =~= Seq::empty());
    if let Some(c) = choice {
        if let Some(fr) = &c.finish_reason {
            reason = translate_stop_reason(Some(fr.as_str()));
        }
        if let Some(m) = &c.message {
            if let Some(text) = &m.content {
                if !text.as_str().is_empty() {
                    push_json(&mut content, make_text_block(text));
                }
            }
            let ghost head = json_views(content@);
            if let Some(tcs) = &m.tool_calls {
                let mut i: usize = 0;
                assert(head + tool_use_blocks(tcs@, ids).take(0) =~= head);
                while i < tcs.len()
                    invariant
                        i <= tcs@.len(),
                        tcs@.len() == tool_ids@.len(),
                        ids == views(tool_ids@),
                        json_views(content@) == head + tool_use_blocks(tcs@, ids).take(i as int),
                    decreases tcs@.len() - i,
                {
                    push_json(&mut content, make_tool_use_block(&tcs[i], &tool_ids[i]));
                    assert(head + tool_use_blocks(tcs@, ids).take(i + 1) =~= (head
                        + tool_use_blocks(tcs@, ids).take(i as int)).push(
                        tool_use_blocks(tcs@, ids)[i as int],
                    ));
                    i += 1;
                }
                assert(tool_use_blocks(tcs@, ids).take(i as int) =~= tool_use_blocks(tcs@, ids));
            } else {
                assert(head + tool_use_blocks(Seq::empty(), ids) =~= head);
            }
        }
    }
    proof {
        let text = if first_text(*resp).len() > 0 {
            Seq::empty().push(text_block(first_text(*resp)))
        } else {
            Seq::empty()
        };
        assert(json_views(content@) =~= text + tool_use_blocks(first_tool_calls(*resp), ids));
    }
    if content.is_empty() {
        push_json(&mut content, make_text_block(""));
    }
    let (input_tokens, output_tokens) = extract_usage(Some(resp));
    AnthropicResponse {
        id: msg_id,
        response_type: "message",
        role: "assistant",
        content,
        model: requested_model.to_owned(),
        stop_reason: Some(reason),
        stop_sequence: None,
        usage: AnthropicUsage { input_tokens, output_tokens },
    }
}

/// The response for a backend response, under identifiers generated where none are given.
pub fn translate_openai_response(resp: &OpenAIResponse, requested_model: &str) -> (r:
    AnthropicResponse)
    ensures
        exists|ids: Seq<Seq<char>>| #[trigger]
            tool_ids_for(first_tool_calls(*resp), ids) && is_message_id(r.id@) && is_response(
                r,
                *resp,
                requested_model@,
                r.id@,
                ids,
            ),
{
    let mut tool_ids: Vec<String> = Vec::new();
    if let Some(cs) = &resp.choices {
        if cs.len() > 0 {
            if let Some(m) = &cs[0].message {
                if let Some(tcs) = &m.tool_calls {
                    tool_ids = choose_tool_ids(tcs);
                }
            }
        }
    }
    assert(tool_ids_for(first_tool_calls(*resp), views(tool_ids@)));
    let msg_id = generate_message_id();
    translate_openai_response_with(resp, requested_model, msg_id, &tool_ids)
}

} // verus!
