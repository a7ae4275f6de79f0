//! What the translation of a request keeps of it.
use vstd::prelude::*;
use crate::api::anthropic::{
    all_messages, assistant_message, content_text, has_block, messages_of, openai_request,
    openai_tool, plain_text, system_messages, system_text, tool_call_of, tool_calls_of,
    tool_message, tool_result_run, tool_use_block, user_messages, AnthropicMessage,
    AnthropicRequest, AnthropicTool, OpenAIToolCall,
};
use crate::api::event_laws::number_under;
use crate::json::{json_read, json_text, lemma_lookup_push, JsonView};
use crate::text::opt_view;
use crate::text_laws::law_decimal_text;

verus! {

proof fn lemma_message_keys()
    ensures
        "role"@ != "content"@,
        "role"@ != "tool_calls"@,
        "content"@ != "tool_calls"@,
        "role"@ != "tool_call_id"@,
        "tool_call_id"@ != "content"@,
        "id"@ != "type"@,
        "id"@ != "function"@,
        "type"@ != "function"@,
        "name"@ != "arguments"@,
        "name"@ != "description"@,
        "name"@ != "parameters"@,
        "description"@ != "parameters"@,
        "id"@ != "name"@,
        "id"@ != "input"@,
        "name"@ != "input"@,
        "type"@ != "name"@,
        "type"@ != "input"@,
        "text"@ != "tool_use"@,
        "text"@ != "tool_result"@,
        "tool_use"@ != "tool_result"@,
        "user"@ != "assistant"@,
{
    reveal_strlit("role");
    reveal_strlit("content");
    reveal_strlit("tool_calls");
    reveal_strlit("tool_call_id");
    reveal_strlit("id");
    reveal_strlit("type");
    reveal_strlit("function");
    reveal_strlit("name");
    reveal_strlit("arguments");
    reveal_strlit("description");
    reveal_strlit("parameters");
    reveal_strlit("input");
    reveal_strlit("text");
    reveal_strlit("tool_use");
    reveal_strlit("tool_result");
    reveal_strlit("user");
    reveal_strlit("assistant");
    assert("type"@[0] == 't' && "name"@[0] == 'n');
    assert("role"@.len() == 4 && "content"@.len() == 7 && "tool_calls"@.len() == 10);
    assert("tool_call_id"@.len() == 12 && "id"@.len() == 2 && "function"@.len() == 8);
    assert("arguments"@.len() == 9 && "description"@.len() == 11 && "parameters"@.len() == 10);
    assert("input"@.len() == 5 && "text"@.len() == 4 && "tool_use"@.len() == 8);
    assert("tool_result"@.len() == 11 && "user"@.len() == 4 && "assistant"@.len() == 9);
    assert("type"@.len() == 4 && "name"@.len() == 4);
}

/// A translated tool call keeps what the tool use holds: the identifier under which it is answered,
/// the name of the tool, and the input, as JSON text. A missing input is an empty object.
pub proof fn law_tool_calls_keep_their_input(b: JsonView)
    ensures
        ({
            let call = tool_call_of(b);
            let f = call.field("function"@)->0;
            &&& call.field("function"@) is Some
            &&& call.text_field("type"@) == Some("function"@)
            &&& b.text_field("id"@) is Some ==> call.text_field("id"@) == b.text_field("id"@)
            &&& b.text_field("name"@) is Some ==> f.text_field("name"@) == b.text_field("name"@)
            &&& b.field("input"@) is Some ==> f.text_field("arguments"@) == Some(
                json_text(b.field("input"@)->0),
            )
            &&& b.field("input"@) is None ==> f.text_field("arguments"@) == Some(
                json_text(JsonView::Object(Seq::empty())),
            )
            &&& b.text_field("id"@) is None ==> call.text_field("id"@) == Some(Seq::<char>::empty())
            &&& b.text_field("name"@) is None ==> f.text_field("name"@) == Some(
                Seq::<char>::empty(),
            )
        }),
{
    broadcast use lemma_lookup_push;

    lemma_message_keys();
}

/// A tool use that is translated into a tool call, and that call back under the same identifier,
/// is the tool use again: identifier, name, and the input as it is read from its JSON text.
pub proof fn law_tool_use_comes_back(b: JsonView, call: OpenAIToolCall)
    requires
        b.text_field("id"@) is Some,
        b.text_field("name"@) is Some,
        b.field("input"@) is Some,
        call.function is Some,
        opt_view(call.function->0.name) == tool_call_of(b).field("function"@)->0.text_field(
            "name"@,
        ),
        opt_view(call.function->0.arguments) == tool_call_of(b).field("function"@)->0.text_field(
            "arguments"@,
        ),
        json_read(json_text(b.field("input"@)->0)) is Some,
    ensures
        ({
            let id = tool_call_of(b).text_field("id"@)->0;
            let back = tool_use_block(call, id);
            &&& tool_call_of(b).text_field("id"@) is Some
            &&& back.text_field("type"@) == Some("tool_use"@)
            &&& back.text_field("id"@) == b.text_field("id"@)
            &&& back.text_field("name"@) == b.text_field("name"@)
            &&& back.field("input"@) == json_read(json_text(b.field("input"@)->0))
        }),
{
    broadcast use lemma_lookup_push;

    lemma_message_keys();
    law_tool_calls_keep_their_input(b);
}

/// Every tool use of a message becomes one tool call, in order; other blocks become none.
pub proof fn law_one_call_for_each_tool_use(blocks: Seq<JsonView>, b: JsonView)
    ensures
        tool_calls_of(Seq::empty()) == Seq::<JsonView>::empty(),
        b.text_field("type"@) == Some("tool_use"@) ==> tool_calls_of(blocks.push(b))
            == tool_calls_of(blocks).push(tool_call_of(b)),
        b.text_field("type"@) != Some("tool_use"@) ==> tool_calls_of(blocks.push(b))
            == tool_calls_of(blocks),
{
    assert(blocks.push(b).drop_last() =~= blocks);
}

/// The text of a content is what its text blocks say, one after the other; other blocks add
/// nothing, and a plain text stands for itself.
pub proof fn law_content_text(s: Seq<char>, blocks: Seq<JsonView>, b: JsonView, t: Seq<char>)
    ensures
        content_text(JsonView::Text(s)) == s,
        content_text(JsonView::Array(Seq::empty())) == Seq::<char>::empty(),
        b.text_field("type"@) == Some("text"@) && b.text_field("text"@) == Some(t) ==> content_text(
            JsonView::Array(blocks.push(b)),
        ) == content_text(JsonView::Array(blocks)) + t,
        b.text_field("type"@) != Some("text"@) ==> content_text(JsonView::Array(blocks.push(b)))
            == content_text(JsonView::Array(blocks)),
{
    assert(blocks.push(b).drop_last() =~= blocks);
}

/// The text of a system prompt is what its text blocks say, each on a line of its own.
pub proof fn law_system_text(s: Seq<char>, blocks: Seq<JsonView>, b: JsonView, t: Seq<char>)
    ensures
        system_text(JsonView::Text(s)) == s,
        system_text(JsonView::Array(Seq::empty())) == Seq::<char>::empty(),
        b.text_field("type"@) == Some("text"@) && b.text_field("text"@) == Some(t) ==> ({
            let before = system_text(JsonView::Array(blocks));
            system_text(JsonView::Array(blocks.push(b))) == if before == Seq::<char>::empty() {
                t
            } else {
                before + seq!['\n'] + t
            }
        }),
        b.text_field("type"@) != Some("text"@) ==> system_text(JsonView::Array(blocks.push(b)))
            == system_text(JsonView::Array(blocks)),
{
    assert(blocks.push(b).drop_last() =~= blocks);
    let before = system_text(JsonView::Array(blocks));
    assert(before.push('\n') + t =~= before + seq!['\n'] + t);
    assert(before.len() == 0 ==> before =~= Seq::<char>::empty());
}

/// The assistant's turn with tool uses is one message of the assistant: its text, or null where
/// there is none, and its tool calls.
pub proof fn law_assistant_turn(blocks: Seq<JsonView>)
    ensures
        ({
            let m = assistant_message(JsonView::Array(blocks));
            let text = content_text(JsonView::Array(blocks));
            let calls = tool_calls_of(blocks);
            &&& m.text_field("role"@) == Some("assistant"@)
            &&& text.len() > 0 ==> m.text_field("content"@) == Some(text)
            &&& text.len() == 0 ==> m.field("content"@) == Some(JsonView::Null)
            &&& calls.len() > 0 ==> m.field("tool_calls"@) == Some(JsonView::Array(calls))
            &&& calls.len() == 0 ==> m.field("tool_calls"@) is None
        }),
{
    broadcast use lemma_lookup_push;

    lemma_message_keys();
}

/// A tool result becomes a message of the tool, that answers the call with the same identifier by
/// the result's text.
pub proof fn law_tool_results_answer_their_call(b: JsonView)
    ensures
        ({
            let m = tool_message(b);
            &&& m.text_field("role"@) == Some("tool"@)
            &&& b.text_field("tool_use_id"@) is Some ==> m.text_field("tool_call_id"@)
                == b.text_field("tool_use_id"@)
            &&& b.field("content"@) is Some ==> m.text_field("content"@) == Some(
                content_text(b.field("content"@)->0),
            )
            &&& b.field("content"@) is None ==> m.text_field("content"@) == Some(
                Seq::<char>::empty(),
            )
        }),
{
    broadcast use lemma_lookup_push;

    lemma_message_keys();
}

/// A user's message with a text.
pub open spec fn is_text_from(m: JsonView, role: Seq<char>, text: Seq<char>) -> bool {
    m.text_field("role"@) == Some(role) && m.text_field("content"@) == Some(text)
}

/// A user's turn with one tool result, and text before and behind it, becomes the text before, the
/// result and the text behind, in this order; an empty text becomes no message.
pub proof fn law_results_keep_their_place(
    before: Seq<JsonView>,
    result: JsonView,
    after: Seq<JsonView>,
)
    requires
        forall|i: int|
            0 <= i < before.len() ==> (#[trigger] before[i]).text_field("type"@) != Some(
                "tool_result"@,
            ),
        forall|i: int|
            0 <= i < after.len() ==> (#[trigger] after[i]).text_field("type"@) != Some(
                "tool_result"@,
            ),
        result.text_field("type"@) == Some("tool_result"@),
    ensures
        ({
            let ms = user_messages(JsonView::Array(before.push(result) + after));
            let a = content_text(JsonView::Array(before));
            let b = content_text(JsonView::Array(after));
            let k: int = if a.len() > 0 {
                1
            } else {
                0
            };
            let n: int = if b.len() > 0 {
                1
            } else {
                0
            };
            &&& ms.len() == k + 1 + n
            &&& a.len() > 0 ==> is_text_from(ms[0], "user"@, a)
            &&& ms[k] == tool_message(result)
            &&& b.len() > 0 ==> is_text_from(ms[k + 1], "user"@, b)
        }),
{
    broadcast use lemma_lookup_push;

    lemma_message_keys();
    lemma_plain_run(before);
    assert(before.push(result).drop_last() =~= before);
    lemma_after_result(before.push(result), after);
    assert(Seq::<char>::empty() + content_text(JsonView::Array(after)) =~= content_text(
        JsonView::Array(after),
    ));
}

/// Blocks without a result are kept back as text.
proof fn lemma_plain_run(blocks: Seq<JsonView>)
    requires
        forall|i: int|
            0 <= i < blocks.len() ==> (#[trigger] blocks[i]).text_field("type"@) != Some(
                "tool_result"@,
            ),
    ensures
        tool_result_run(blocks) == (Seq::<JsonView>::empty(), plain_text(blocks)),
    decreases blocks.len(),
{
    if blocks.len() > 0 {
        assert forall|i: int| 0 <= i < blocks.drop_last().len() implies (
        #[trigger] blocks.drop_last()[i]).text_field("type"@) != Some("tool_result"@) by {
            assert(blocks.drop_last()[i] == blocks[i]);
        }
        lemma_plain_run(blocks.drop_last());
        assert(blocks[blocks.len() - 1] == blocks.last());
    }
}

/// Blocks without a result, behind others, add to the text that is kept back.
proof fn lemma_after_result(head: Seq<JsonView>, after: Seq<JsonView>)
    requires
        forall|i: int|
            0 <= i < after.len() ==> (#[trigger] after[i]).text_field("type"@) != Some(
                "tool_result"@,
            ),
    ensures
        tool_result_run(head + after) == (
            tool_result_run(head).0,
            tool_result_run(head).1 + plain_text(after),
        ),
    decreases after.len(),
{
    if after.len() == 0 {
        assert(head + after =~= head);
        assert(tool_result_run(head).1 + plain_text(after) =~= tool_result_run(head).1);
    } else {
        let less = after.drop_last();
        assert((head + after).drop_last() =~= head + less);
        assert((head + after).last() == after.last());
        assert forall|i: int| 0 <= i < less.len() implies (#[trigger] less[i]).text_field("type"@)
            != Some("tool_result"@) by {
            assert(less[i] == after[i]);
        }
        lemma_after_result(head, less);
        assert(after[after.len() - 1] == after.last());
        let kept = tool_result_run(head).1;
        match crate::api::anthropic::block_text(after.last()) {
            Some(t) => {
                assert(kept + plain_text(less) + t =~= kept + (plain_text(less) + t));
            },
            None => {},
        }
    }
}

/// Two results in a row become two messages, in order.
pub proof fn law_results_in_a_row(blocks: Seq<JsonView>, a: JsonView, b: JsonView)
    requires
        a.text_field("type"@) == Some("tool_result"@),
        b.text_field("type"@) == Some("tool_result"@),
    ensures
        user_messages(JsonView::Array(blocks.push(a).push(b))) == user_messages(
            JsonView::Array(blocks.push(a)),
        ).push(tool_message(b)),
        user_messages(JsonView::Array(blocks.push(a))).last() == tool_message(a),
{
    assert(blocks.push(a).push(b).drop_last() =~= blocks.push(a));
    assert(blocks.push(a).drop_last() =~= blocks);
}

/// A message without tools keeps its role and its text.
pub proof fn law_plain_messages(m: AnthropicMessage)
    requires
        !(m.role@ == "assistant"@ && has_block(m.content@, "tool_use"@)),
        !(m.role@ == "user"@ && has_block(m.content@, "tool_result"@)),
    ensures
        messages_of(m).len() == 1,
        is_text_from(messages_of(m)[0], m.role@, content_text(m.content@)),
{
    broadcast use lemma_lookup_push;

    lemma_message_keys();
}

/// Messages with tool uses of the assistant, and with tool results of the user, are told from the
/// others by their blocks.
pub proof fn law_tool_messages(m: AnthropicMessage, blocks: Seq<JsonView>, i: int)
    requires
        m.content@ == JsonView::Array(blocks),
        0 <= i < blocks.len(),
    ensures
        m.role@ == "assistant"@ && blocks[i].text_field("type"@) == Some("tool_use"@)
            ==> messages_of(m) == seq![assistant_message(m.content@)],
        m.role@ == "user"@ && blocks[i].text_field("type"@) == Some("tool_result"@)
            ==> messages_of(m) == user_messages(m.content@),
{
    lemma_message_keys();
    if m.role@ == "assistant"@ && blocks[i].text_field("type"@) == Some("tool_use"@) {
        assert(has_block(m.content@, "tool_use"@));
        assert(messages_of(m) =~= seq![assistant_message(m.content@)]);
    }
    if m.role@ == "user"@ && blocks[i].text_field("type"@) == Some("tool_result"@) {
        assert(has_block(m.content@, "tool_result"@));
    }
}

/// A conversation is translated message by message, in order.
pub proof fn law_conversation_keeps_its_order(
    a: Seq<AnthropicMessage>,
    b: Seq<AnthropicMessage>,
    m: AnthropicMessage,
)
    ensures
        all_messages(a + b) == all_messages(a) + all_messages(b),
        all_messages(seq![m]) == messages_of(m),
    decreases b.len(),
{
    let one = seq![m];
    assert(one.drop_last() =~= Seq::empty());
    assert(all_messages(one.drop_last()) =~= Seq::empty());
    assert(all_messages(one) == all_messages(one.drop_last()) + messages_of(one.last()));
    assert(all_messages(one) =~= messages_of(m));
    if b.len() == 0 {
        assert(a + b =~= a);
        assert(all_messages(a) + all_messages(b) =~= all_messages(a));
    } else {
        assert((a + b).drop_last() =~= a + b.drop_last());
        law_conversation_keeps_its_order(a, b.drop_last(), m);
        assert(all_messages(a + b) =~= all_messages(a) + all_messages(b));
    }
}

/// A tool is offered under its name, with its description and the schema of its input where it has
/// them.
pub proof fn law_tools_are_offered(t: AnthropicTool)
    ensures
        ({
            let f = openai_tool(t).field("function"@)->0;
            &&& openai_tool(t).text_field("type"@) == Some("function"@)
            &&& openai_tool(t).field("function"@) is Some
            &&& f.text_field("name"@) == Some(t.name@)
            &&& t.description is Some ==> f.text_field("description"@) == Some(
                t.description->0@,
            )
            &&& t.description is None ==> f.field("description"@) is None
            &&& t.input_schema is Some ==> f.field("parameters"@) == Some(t.input_schema->0@)
            &&& t.input_schema is None ==> f.field("parameters"@) is None
        }),
{
    broadcast use lemma_lookup_push;

    lemma_message_keys();
}

proof fn lemma_request_keys()
    ensures
        "model"@.len() == 5,
        "max_tokens"@.len() == 10,
        "messages"@.len() == 8,
        "stream"@.len() == 6,
        "temperature"@.len() == 11,
        "top_p"@.len() == 5,
        "top_p"@ != "model"@,
        "stop"@.len() == 4,
        "tools"@.len() == 5,
        "tools"@ != "model"@,
        "tools"@ != "top_p"@,
        "stream_options"@.len() == 14,
{
    reveal_strlit("model");
    reveal_strlit("max_tokens");
    reveal_strlit("messages");
    reveal_strlit("stream");
    reveal_strlit("temperature");
    reveal_strlit("top_p");
    reveal_strlit("stop");
    reveal_strlit("tools");
    reveal_strlit("stream_options");
    assert("model"@[0] == 'm' && "top_p"@[0] == 't' && "tools"@[0] == 't');
    assert("top_p"@[2] == 'p' && "tools"@[2] == 'o');
}

/// Every setting of a request is found in its translation under the name that it has there, and
/// what is not set is not sent. A streamed answer is asked to report its usage.
pub proof fn law_request_settings(req: AnthropicRequest)
    ensures
        ({
            let r = openai_request(req);
            &&& r.text_field("model"@) == Some(req.model@)
            &&& number_under(r, "max_tokens"@) == Some(req.max_tokens as int)
            &&& r.field("stream"@) == Some(JsonView::Bool(req.stream))
            &&& match req.temperature {
                Some(t) => r.field("temperature"@) == Some(JsonView::Number(t@)),
                None => r.field("temperature"@) is None,
            }
            &&& match req.top_p {
                Some(t) => r.field("top_p"@) == Some(JsonView::Number(t@)),
                None => r.field("top_p"@) is None,
            }
            &&& match req.stop_sequences {
                Some(v) => {
                    let items = r.field("stop"@)->0->Array_0;
                    &&& r.field("stop"@) is Some
                    &&& r.field("stop"@)->0 is Array
                    &&& items.len() == v@.len()
                    &&& forall|i: int|
                        0 <= i < v@.len() ==> #[trigger] items[i] == JsonView::Text(v@[i]@)
                },
                None => r.field("stop"@) is None,
            }
            &&& match req.tools {
                Some(v) => {
                    let items = r.field("tools"@)->0->Array_0;
                    &&& r.field("tools"@) is Some
                    &&& r.field("tools"@)->0 is Array
                    &&& items.len() == v@.len()
                    &&& forall|i: int|
                        0 <= i < v@.len() ==> #[trigger] items[i] == openai_tool(v@[i])
                },
                None => r.field("tools"@) is None,
            }
            &&& req.stream ==> r.field("stream_options"@) is Some && r.field(
                "stream_options"@,
            )->0.field("include_usage"@) == Some(JsonView::Bool(true))
            &&& !req.stream ==> r.field("stream_options"@) is None
        }),
{
    broadcast use lemma_lookup_push;

    lemma_request_keys();
    law_decimal_text(req.max_tokens as nat);
    assert('0' <= crate::text::dec(req.max_tokens as nat)[0]);
}

/// The translated messages are the system prompt, where it has text, and then the conversation.
pub proof fn law_request_messages(req: AnthropicRequest)
    ensures
        ({
            let ms = openai_request(req).field("messages"@)->0->Array_0;
            let prompt = match req.system {
                Some(v) => system_text(v@),
                None => Seq::<char>::empty(),
            };
            &&& openai_request(req).field("messages"@) is Some
            &&& openai_request(req).field("messages"@)->0 is Array
            &&& prompt.len() > 0 ==> ms.len() > 0 && is_text_from(ms[0], "system"@, prompt)
                && ms.skip(1) == all_messages(req.messages@)
            &&& prompt.len() == 0 ==> ms == all_messages(req.messages@)
        }),
{
    broadcast use lemma_lookup_push;

    lemma_request_keys();
    lemma_message_keys();
    let all = all_messages(req.messages@);
    let head = system_messages(req.system);
    assert(head.len() == 1 ==> (head + all).skip(1) =~= all);
    assert(head.len() == 0 ==> head + all =~= all);
}

} // verus!
