//! What an answer keeps of the backend's answer, and what a refused request is told.
use vstd::prelude::*;
use crate::api::anthropic::{
    is_response, response_content, tool_ids_for, tool_use_block, usage_counts, AnthropicResponse,
    OpenAIResponse, OpenAIToolCall, OpenAIUsage,
};
use crate::api::event_laws::{law_stop_reasons, number_under};
use crate::api::gateway::{
    admission, attribution, backend_error, has_failed, is_complete_success, is_server_error,
    is_success, not_loaded_text,
    openai_error, request_headers, response_headers, BackendCall, MetaUser, RefusalView,
    ResolvedModel,
};
use crate::api::messages::{
    anthropic_error, anthropic_refusal, inner_value, response_json, stream_refusal,
};
use crate::api::openai::{model_info, openai_refusal};
use crate::auth::session::AuthUser;
use crate::ids::law_identifiers;
use crate::json::{json_read, lemma_lookup_push, JsonView};
use crate::text::{has_suffix, occurs_at, opt_view};
use crate::text_laws::law_signed_text;

verus! {

proof fn lemma_keys()
    ensures
        "type"@.len() == 4,
        "text"@.len() == 4,
        "type"@ != "text"@,
        "id"@.len() == 2,
        "name"@.len() == 4,
        "type"@ != "name"@,
        "input"@.len() == 5,
        "role"@.len() == 4,
        "type"@ != "role"@,
        "content"@.len() == 7,
        "model"@.len() == 5,
        "stop_reason"@.len() == 11,
        "stop_sequence"@.len() == 13,
        "usage"@.len() == 5,
        "model"@ != "usage"@,
        "input_tokens"@.len() == 12,
        "output_tokens"@.len() == 13,
        "error"@.len() == 5,
        "message"@.len() == 7,
        "code"@.len() == 4,
        "code"@ != "type"@,
        "object"@.len() == 6,
        "owned_by"@.len() == 8,
{
    reveal_strlit("type");
    reveal_strlit("text");
    reveal_strlit("id");
    reveal_strlit("name");
    reveal_strlit("input");
    reveal_strlit("role");
    reveal_strlit("content");
    reveal_strlit("model");
    reveal_strlit("stop_reason");
    reveal_strlit("stop_sequence");
    reveal_strlit("usage");
    reveal_strlit("input_tokens");
    reveal_strlit("output_tokens");
    reveal_strlit("error");
    reveal_strlit("message");
    reveal_strlit("code");
    reveal_strlit("object");
    reveal_strlit("owned_by");
    assert("type"@[1] == 'y' && "text"@[1] == 'e' && "name"@[0] == 'n' && "type"@[0] == 't');
    assert("role"@[0] == 'r' && "model"@[0] == 'm' && "usage"@[0] == 'u' && "code"@[0] == 'c');
}

/// A content block that the backend's tool call becomes: it has the call's name and the given
/// identifier, and its input is what the call's arguments are read as.
pub proof fn law_calls_become_tool_uses(tc: OpenAIToolCall, id: Seq<char>, arguments: Seq<char>)
    requires
        tc.function is Some && opt_view(tc.function->0.arguments) == Some(arguments),
    ensures
        ({
            let b = tool_use_block(tc, id);
            &&& b.text_field("type"@) == Some("tool_use"@)
            &&& b.text_field("id"@) == Some(id)
            &&& tc.function->0.name is Some ==> b.text_field("name"@) == Some(
                tc.function->0.name->0@,
            )
            &&& json_read(arguments) is Some ==> b.field("input"@) == json_read(arguments)
            &&& json_read(arguments) is None ==> b.field("input"@) == Some(
                JsonView::Object(Seq::empty()),
            )
        }),
{
    broadcast use lemma_lookup_push;

    lemma_keys();
}

/// A call keeps the identifier that the backend gave it; only a call without one is given another.
pub proof fn law_given_identifiers_are_kept(
    tcs: Seq<OpenAIToolCall>,
    ids: Seq<Seq<char>>,
    i: int,
)
    requires
        tool_ids_for(tcs, ids),
        0 <= i < tcs.len(),
    ensures
        ids.len() == tcs.len(),
        tcs[i].id is Some && tcs[i].id->0@.len() > 0 ==> ids[i] == tcs[i].id->0@,
        tcs[i].id is None || tcs[i].id->0@.len() == 0 ==> ids[i].len() == 30 && ids[i].take(6)
            == "toolu_"@,
{
    law_identifiers(ids[i], 6);
}

/// An answer with a text and tool calls has the text first, where there is one, and then one block
/// for each call, in order. Where there would be nothing, it has an empty text.
pub proof fn law_answer_has_text_then_calls(
    r: AnthropicResponse,
    resp: OpenAIResponse,
    model: Seq<char>,
    id: Seq<char>,
    ids: Seq<Seq<char>>,
    text: Seq<char>,
    calls: Seq<OpenAIToolCall>,
)
    requires
        is_response(r, resp, model, id, ids),
        resp.choices is Some && resp.choices->0@.len() > 0 && resp.choices->0@[0].message is Some,
        ({
            let m = resp.choices->0@[0].message->0;
            &&& opt_view(m.content) == Some(text) || (m.content is None && text.len() == 0)
            &&& match m.tool_calls {
                Some(v) => v@ == calls,
                None => calls.len() == 0,
            }
        }),
    ensures
        ({
            let content = r.content@;
            let k: int = if text.len() > 0 {
                1
            } else {
                0
            };
            &&& text.len() > 0 ==> content.len() > 0 && content[0]@.text_field("type"@) == Some(
                "text"@,
            ) && content[0]@.text_field("text"@) == Some(text)
            &&& k + calls.len() > 0 ==> content.len() == k + calls.len()
            &&& forall|i: int|
                0 <= i < calls.len() ==> content[k + i]@ == tool_use_block(
                    #[trigger] calls[i],
                    ids[i],
                )
            &&& k + calls.len() == 0 ==> content.len() == 1 && content[0]@.text_field("text"@)
                == Some(Seq::<char>::empty()) && content[0]@.text_field("type"@) == Some("text"@)
        }),
{
    broadcast use lemma_lookup_push;

    lemma_keys();
    reveal_strlit("");
    assert(""@ =~= Seq::<char>::empty());
    let views = crate::json::json_views(r.content@);
    assert(views == response_content(resp, ids));
    assert(views.len() == r.content@.len());
    let k: int = if text.len() > 0 {
        1
    } else {
        0
    };
    if r.content@.len() > 0 {
        assert(views[0] == r.content@[0]@);
    }
    assert forall|i: int| 0 <= i < calls.len() implies r.content@[k + i]@ == tool_use_block(
        #[trigger] calls[i],
        ids[i],
    ) by {
        assert(views[k + i] == r.content@[k + i]@);
    }
}

/// An answer tells who speaks, with which model, why it stopped and what was used: as many input
/// tokens as the prompt took, and as many output tokens as were generated.
pub proof fn law_answer_is_attributed(
    r: AnthropicResponse,
    resp: OpenAIResponse,
    model: Seq<char>,
    id: Seq<char>,
    ids: Seq<Seq<char>>,
)
    requires
        is_response(r, resp, model, id, ids),
    ensures
        r.id@ == id,
        r.model@ == model,
        r.role@ == "assistant"@,
        r.response_type@ == "message"@,
        r.stop_sequence is None,
        resp.usage is Some && resp.usage->0.prompt_tokens is Some ==> r.usage.input_tokens
            == resp.usage->0.prompt_tokens->0,
        resp.usage is Some && resp.usage->0.completion_tokens is Some ==> r.usage.output_tokens
            == resp.usage->0.completion_tokens->0,
        resp.usage is None ==> r.usage.input_tokens == 0 && r.usage.output_tokens == 0,
        ({
            let given = if resp.choices is Some && resp.choices->0@.len() > 0 {
                opt_view(resp.choices->0@[0].finish_reason)
            } else {
                None
            };
            &&& given is None ==> opt_view(r.stop_reason) == Some("end_turn"@)
            &&& given == Some("stop"@) ==> opt_view(r.stop_reason) == Some("end_turn"@)
            &&& given == Some("length"@) ==> opt_view(r.stop_reason) == Some("max_tokens"@)
            &&& given == Some("tool_calls"@) ==> opt_view(r.stop_reason) == Some("tool_use"@)
        }),
{
    law_stop_reasons(Seq::empty());
}

/// The parts of an answer are found in the body that is sent, each under its own name.
pub proof fn law_answer_is_sent_whole(r: AnthropicResponse)
    ensures
        ({
            let j = response_json(r);
            let usage = j.field("usage"@)->0;
            let content = j.field("content"@)->0->Array_0;
            &&& j.text_field("id"@) == Some(r.id@)
            &&& j.text_field("type"@) == Some(r.response_type@)
            &&& j.text_field("role"@) == Some(r.role@)
            &&& j.text_field("model"@) == Some(r.model@)
            &&& j.text_field("stop_reason"@) == opt_view(r.stop_reason)
            &&& r.stop_reason is None ==> j.field("stop_reason"@) == Some(JsonView::Null)
            &&& r.stop_sequence is None ==> j.field("stop_sequence"@) == Some(JsonView::Null)
            &&& j.field("usage"@) is Some
            &&& number_under(usage, "input_tokens"@) == Some(r.usage.input_tokens as int)
            &&& number_under(usage, "output_tokens"@) == Some(r.usage.output_tokens as int)
            &&& j.field("content"@) is Some
            &&& j.field("content"@)->0 is Array
            &&& content.len() == r.content@.len()
            &&& forall|i: int|
                0 <= i < content.len() ==> #[trigger] content[i] == inner_value(r.content@[i]@)
        }),
{
    broadcast use lemma_lookup_push;

    lemma_keys();
    law_signed_text(r.usage.input_tokens as int);
    law_signed_text(r.usage.output_tokens as int);
}

/// The counts of a usage report, in the order input and output; a count that is missing is zero.
pub proof fn law_usage_counts(u: OpenAIUsage)
    ensures
        u.prompt_tokens is Some ==> usage_counts(Some(u)).0 == u.prompt_tokens->0,
        u.completion_tokens is Some ==> usage_counts(Some(u)).1 == u.completion_tokens->0,
        u.prompt_tokens is None ==> usage_counts(Some(u)).0 == 0,
        u.completion_tokens is None ==> usage_counts(Some(u)).1 == 0,
        usage_counts(None) == (0i64, 0i64),
{
}

/// An error tells its kind and its message, each under its own name, in both APIs.
pub proof fn law_errors_tell_kind_and_message(
    status: u16,
    kind: Seq<char>,
    message: Seq<char>,
    code: Seq<char>,
)
    ensures
        ({
            let r = anthropic_error(status, kind, message);
            let e = r.body.field("error"@)->0;
            &&& r.status == status
            &&& r.body.text_field("type"@) == Some("error"@)
            &&& e.text_field("type"@) == Some(kind)
            &&& e.text_field("message"@) == Some(message)
        }),
        ({
            let e = openai_error(message, kind, code).field("error"@)->0;
            &&& e.text_field("message"@) == Some(message)
            &&& e.text_field("type"@) == Some(kind)
            &&& e.text_field("code"@) == Some(code)
        }),
{
    broadcast use lemma_lookup_push;

    lemma_keys();
}

/// A refused request is told the same in both APIs: the status says whose fault it is (an unknown
/// model is the client's, a busy system asks to retry, anything else is for later), and the message
/// names the model that is not there.
pub proof fn law_refusals_agree(f: RefusalView)
    ensures
        ({
            let a = anthropic_refusal(f);
            let o = openai_refusal(f);
            let am = a.body.field("error"@)->0.text_field("message"@);
            let om = o.body.field("error"@)->0.text_field("message"@);
            &&& a.status == o.status
            &&& am == om
            &&& am is Some
            &&& match f {
                RefusalView::ModelNotFound { model } => a.status == 404 && has_suffix(
                    am->0,
                    model,
                ),
                RefusalView::NotLoaded { message } => a.status == 503 && am->0 == message,
                RefusalView::Reserved => a.status == 503,
                RefusalView::Busy { .. } => a.status == 429,
            }
        }),
{
    broadcast use lemma_lookup_push;

    lemma_keys();
    if let RefusalView::ModelNotFound { model } = f {
        let s = "Model not found: "@ + model;
        assert(s.subrange(s.len() - model.len(), s.len() as int) =~= model);
    }
}

/// A request is served exactly where the model is there and running and the system is not reserved
/// for someone else; the refusal says which of these fails first.
pub proof fn law_admission(
    requested: Seq<char>,
    user: AuthUser,
    model: Option<ResolvedModel>,
    holder: Option<Seq<char>>,
)
    ensures
        admission(requested, user, model, holder) is None <==> {
            &&& model is Some
            &&& model->0.loaded
            &&& user.is_internal || holder is None || holder->0 == user.user_id@
        },
        model is None ==> admission(requested, user, model, holder) == Some(
            (RefusalView::ModelNotFound { model: requested }),
        ),
        model is Some && !model->0.loaded ==> admission(requested, user, model, holder)->0 is NotLoaded,
        model is Some && model->0.loaded && admission(requested, user, model, holder) is Some
            ==> admission(requested, user, model, holder) == Some(RefusalView::Reserved),
{
}

/// What is said of a model that is not running names the model that would run, and the one that
/// was asked for.
pub proof fn law_not_loaded_names_the_models(requested: Seq<char>, repo: Seq<char>)
    ensures
        exists|i: int| #[trigger] occurs_at(not_loaded_text(requested, repo), repo, i),
        exists|i: int| #[trigger] occurs_at(not_loaded_text(requested, repo), requested, i),
{
    let t = not_loaded_text(requested, repo);
    let a = "Model '"@.len() as int;
    assert(t.subrange(a, a + repo.len()) =~= repo);
    assert(occurs_at(t, repo, a));
    if repo == requested {
        assert(occurs_at(t, requested, a));
    } else {
        let b = a + repo.len() + "' (overridden by token from '"@.len();
        assert(t.subrange(b, b + requested.len()) =~= requested);
        assert(occurs_at(t, requested, b));
    }
}

/// Usage is counted for the user behind an internal request who was found, and otherwise for the
/// key's own user; user and token belong together.
pub proof fn law_usage_is_counted_once(
    user: AuthUser,
    email: Option<Seq<char>>,
    found: Option<MetaUser>,
)
    ensures
        ({
            let own = (user.user_id@, user.token_id@);
            let other = (found->0.user_id@, found->0.token_id@);
            let who = attribution(user, email, found);
            &&& user.is_internal && email is Some && found is Some ==> who == other
            &&& !user.is_internal || email is None || found is None ==> who == own
        }),
{
}

/// A stream is begun exactly after a status of success; otherwise the backend's words are passed
/// on in the refusal.
pub proof fn law_streams_begin_on_success(status: u16, body: Seq<char>)
    ensures
        stream_refusal(Some(status), Some(body)) is None <==> status / 100 == 2,
        stream_refusal(None, Some(body)) is Some,
        status / 100 != 2 ==> ({
            let r = stream_refusal(Some(status), Some(body))->0;
            let m = r.body.field("error"@)->0.text_field("message"@);
            r.status == 502 && m is Some && has_suffix(m->0, body)
        }),
        is_success(status) <==> status / 100 == 2,
        is_server_error(status) <==> status / 100 == 5,
{
    broadcast use lemma_lookup_push;

    lemma_keys();
    let s = "Backend error: "@ + body;
    assert(s.subrange(s.len() - body.len(), s.len() as int) =~= body);
}

/// A backend is looked at exactly where it could not be reached or failed, and the body of its
/// answer is kept exactly where the answer is complete and a success.
pub proof fn law_failures_are_looked_at(status: u16)
    ensures
        has_failed(None),
        has_failed(Some(status)) <==> status / 100 == 5,
        is_complete_success(BackendCall::Complete { status }) <==> status / 100 == 2,
        !is_complete_success(BackendCall::Streaming { status }),
        !is_complete_success(BackendCall::Unreachable),
        !is_complete_success(BackendCall::BodyLost),
{
}

/// A refusal is of the kind that each API has for it.
pub proof fn law_kinds_of_refusals(model: Seq<char>, message: Seq<char>, secs: u64)
    ensures
        ({
            let f = RefusalView::ModelNotFound { model };
            let a = anthropic_refusal(f).body.field("error"@)->0;
            let o = openai_refusal(f).body.field("error"@)->0;
            &&& a.text_field("type"@) == Some("not_found_error"@)
            &&& o.text_field("type"@) == Some("invalid_request_error"@)
            &&& o.text_field("code"@) == Some("model_not_found"@)
        }),
        ({
            let f = RefusalView::NotLoaded { message };
            let a = anthropic_refusal(f).body.field("error"@)->0;
            let o = openai_refusal(f).body.field("error"@)->0;
            &&& a.text_field("type"@) == Some("overloaded_error"@)
            &&& o.text_field("type"@) == Some("server_error"@)
            &&& o.text_field("code"@) == Some("model_not_loaded"@)
        }),
        ({
            let f = RefusalView::Reserved;
            let a = anthropic_refusal(f).body.field("error"@)->0;
            let o = openai_refusal(f).body.field("error"@)->0;
            &&& a.text_field("type"@) == Some("overloaded_error"@)
            &&& o.text_field("type"@) == Some("server_error"@)
            &&& o.text_field("code"@) == Some("system_reserved"@)
        }),
        ({
            let f = RefusalView::Busy { retry_after_secs: secs };
            let a = anthropic_refusal(f).body.field("error"@)->0;
            let o = openai_refusal(f).body.field("error"@)->0;
            &&& a.text_field("type"@) == Some("rate_limit_error"@)
            &&& o.text_field("type"@) == Some("server_error"@)
            &&& o.text_field("code"@) == Some("queue_timeout"@)
        }),
{
    broadcast use lemma_lookup_push;

    lemma_keys();
}

/// Where there is an answer to pass on, none is made up; otherwise the client hears that the
/// gateway failed.
pub proof fn law_backend_errors(call: BackendCall, status: u16)
    ensures
        backend_error(BackendCall::Streaming { status }) is None,
        backend_error(BackendCall::Complete { status }) is None,
        backend_error(call) is Some ==> backend_error(call)->0.status == 502,
        backend_error(BackendCall::Unreachable) is Some,
        backend_error(BackendCall::BodyLost) is Some,
{
}

/// The value of a header.
pub open spec fn header_value(h: Seq<(Seq<char>, Seq<char>)>, name: Seq<char>) -> Option<Seq<char>>
    decreases h.len(),
{
    if h.len() == 0 {
        None
    } else if h.last().0 == name {
        Some(h.last().1)
    } else {
        header_value(h.drop_last(), name)
    }
}

proof fn lemma_header_push(
    h: Seq<(Seq<char>, Seq<char>)>,
    e: (Seq<char>, Seq<char>),
    name: Seq<char>,
)
    ensures
        header_value(h.push(e), name) == (if e.0 == name {
            Some(e.1)
        } else {
            header_value(h, name)
        }),
{
    assert(h.push(e).drop_last() =~= h);
}

/// A backend is asked in JSON, and with its key where it has one. What it streams is passed on as
/// events that are not cached, and what it answers at once as what it says it is.
pub proof fn law_headers(key: Seq<char>, kind: Seq<char>)
    ensures
        header_value(request_headers(Some(key)), "authorization"@) == Some("Bearer "@ + key),
        header_value(request_headers(None), "authorization"@) is None,
        header_value(request_headers(Some(key)), "content-type"@) == Some("application/json"@),
        header_value(request_headers(None), "content-type"@) == Some("application/json"@),
        header_value(response_headers(true, Some(kind), None), "content-type"@) == Some(
            "text/event-stream"@,
        ),
        header_value(response_headers(true, Some(kind), None), "cache-control"@) == Some(
            "no-cache"@,
        ),
        header_value(response_headers(true, None, Some(kind)), "transfer-encoding"@) == Some(kind),
        header_value(response_headers(false, Some(kind), None), "content-type"@) == Some(kind),
        header_value(response_headers(false, None, None), "content-type"@) == Some(
            "application/json"@,
        ),
{
    reveal_strlit("content-type");
    reveal_strlit("authorization");
    reveal_strlit("cache-control");
    reveal_strlit("connection");
    assert("content-type"@.len() == 12 && "authorization"@.len() == 13);
    assert("cache-control"@.len() == 13 && "connection"@.len() == 10);
    let none = Seq::<(Seq<char>, Seq<char>)>::empty();
    let json = ("content-type"@, "application/json"@);
    let auth = ("authorization"@, "Bearer "@ + key);
    lemma_header_push(none, json, "authorization"@);
    lemma_header_push(none, json, "content-type"@);
    lemma_header_push(none.push(json), auth, "authorization"@);
    lemma_header_push(none.push(json), auth, "content-type"@);
    lemma_header_push(none, ("content-type"@, kind), "content-type"@);
    let a = ("content-type"@, "text/event-stream"@);
    let b = ("cache-control"@, "no-cache"@);
    let c = ("connection"@, "keep-alive"@);
    lemma_header_push(none.push(a).push(b), c, "content-type"@);
    lemma_header_push(none.push(a), b, "content-type"@);
    lemma_header_push(none, a, "content-type"@);
    lemma_header_push(none.push(a).push(b), c, "cache-control"@);
    lemma_header_push(none.push(a), b, "cache-control"@);
    let d = ("transfer-encoding"@, kind);
    lemma_header_push(none.push(a).push(b).push(c), d, "transfer-encoding"@);
}

/// A model is listed under its repository.
pub proof fn law_models_are_listed_by_repository(repo: Seq<char>)
    ensures
        model_info(repo).text_field("id"@) == Some(repo),
        model_info(repo).text_field("object"@) == Some("model"@),
        model_info(repo).field("owned_by"@) is Some,
{
    broadcast use lemma_lookup_push;

    lemma_keys();
}

} // verus!
