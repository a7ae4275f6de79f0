//! The Anthropic-compatible API: how a request is answered.
use vstd::prelude::*;
use vstd::string::StringExecFns;
use crate::api::anthropic::{
    first_tool_calls, is_response, opt_str_view, tool_ids_for, translate_openai_response,
    AnthropicResponse, OpenAIResponse,
};
use crate::api::gateway::{is_success, Refusal, RefusalView};
use crate::auth::session::{make_opt_text, opt_text};
use crate::ids::is_message_id;
use crate::json::{
    json_normal, json_views, key_sorted, no_fields, sorted_copy, Json, JsonView, ObjectBuilder,
};
use crate::reply::{RecordReply, RecordView};
use crate::text::{dec_int, opt_view};

verus! {

/// An error in the Anthropic form.
pub open spec fn anthropic_error(status: u16, kind: Seq<char>, message: Seq<char>) -> RecordView {
    RecordView {
        status,
        body: JsonView::Object(
            no_fields().push(("type"@, JsonView::Text("error"@))).push(
                (
                    "error"@,
                    JsonView::Object(
                        no_fields().push(("type"@, JsonView::Text(kind))).push(
                            ("message"@, JsonView::Text(message)),
                        ),
                    ),
                ),
            ),
        ),
    }
}

/// An error in the Anthropic form.
pub fn error_response(status: u16, error_type: &str, message: &str) -> (r: RecordReply)
    ensures
        r@ == anthropic_error(status, error_type@, message@),
{
    let detail = ObjectBuilder::new().with("type", Json::str(error_type)).with(
        "message",
        Json::str(message),
    ).done();
    let body = ObjectBuilder::new().with("type", Json::str("error")).with("error", detail).done();
    RecordReply { status, body }
}

/// The reply to a request whose body could not be read; `reason` says why.
pub fn invalid_request(reason: &str) -> (r: RecordReply)
    ensures
        r@ == anthropic_error(
            400,
            "invalid_request_error"@,
            "Invalid request body: "@ + reason@,
        ),
{
    error_response(
        400,
        "invalid_request_error",
        &"Invalid request body: ".to_owned().concat(reason),
    )
}

/// The reply to a refused request.
pub open spec fn anthropic_refusal(f: RefusalView) -> RecordView {
    match f {
        RefusalView::ModelNotFound { model } => anthropic_error(
            404,
            "not_found_error"@,
            "Model not found: "@ + model,
        ),
        RefusalView::NotLoaded { message } => anthropic_error(
            503,
            "overloaded_error"@,
            message,
        ),
        RefusalView::Reserved => anthropic_error(
            503,
            "overloaded_error"@,
            "System is currently reserved for exclusive use"@,
        ),
        RefusalView::Busy { .. } => anthropic_error(
            429,
            "rate_limit_error"@,
            "Server is busy. Please retry later."@,
        ),
    }
}

/// The reply to a refused request.
pub fn refusal_reply(f: &Refusal) -> (r: RecordReply)
    ensures
        r@ == anthropic_refusal(f@),
{
    match f {
        Refusal::ModelNotFound { model } => error_response(
            404,
            "not_found_error",
            &"Model not found: ".to_owned().concat(model),
        ),
        Refusal::NotLoaded { message } => error_response(503, "overloaded_error", message),
        Refusal::Reserved => error_response(
            503,
            "overloaded_error",
            "System is currently reserved for exclusive use",
        ),
        Refusal::Busy { .. } => error_response(
            429,
            "rate_limit_error",
            "Server is busy. Please retry later.",
        ),
    }
}

/// A value inside a record: the keys of its own objects come in order.
pub open spec fn inner_value(j: JsonView) -> JsonView {
    key_sorted(json_normal(j))
}

/// A response as a record.
pub open spec fn response_json(r: AnthropicResponse) -> JsonView {
    JsonView::Object(
        no_fields().push(("id"@, JsonView::Text(r.id@))).push(
            ("type"@, JsonView::Text(r.response_type@)),
        ).push(("role"@, JsonView::Text(r.role@))).push(
            (
                "content"@,
                JsonView::Array(json_views(r.content@).map_values(|j: JsonView| inner_value(j))),
            ),
        ).push(("model"@, JsonView::Text(r.model@))).push(
            ("stop_reason"@, opt_text(opt_view(r.stop_reason))),
        ).push(
            (
                "stop_sequence"@,
                match r.stop_sequence {
                    Some(j) => inner_value(j@),
                    None => JsonView::Null,
                },
            ),
        ).push(
            (
                "usage"@,
                JsonView::Object(
                    no_fields().push(
                        (
                            "input_tokens"@,
                            JsonView::Number(dec_int(r.usage.input_tokens as int)),
                        ),
                    ).push(
                        (
                            "output_tokens"@,
                            JsonView::Number(dec_int(r.usage.output_tokens as int)),
                        ),
                    ),
                ),
            ),
        ),
    )
}

impl AnthropicResponse {
    /// The response as a record.
    pub fn to_value(self) -> (r: Json)
        ensures
            r@ == response_json(self),
    {
        let usage = ObjectBuilder::new().with(
            "input_tokens",
            Json::signed(self.usage.input_tokens),
        ).with("output_tokens", Json::signed(self.usage.output_tokens)).done();
        let stop_reason = make_opt_text(&self.stop_reason);
        let stop_sequence = match self.stop_sequence {
            Some(j) => sorted_copy(&j),
            None => Json::Null,
        };
        let mut content: Vec<Json> = Vec::new();
        let mut i: usize = 0;
        while i < self.content.len()
            invariant
                i == content@.len(),
                i <= self.content@.len(),
                forall|k: int|
                    0 <= k < i ==> (#[trigger] content@[k])@ == inner_value(self.content@[k]@),
            decreases self.content@.len() - i,
        {
            content.push(sorted_copy(&self.content[i]));
            i += 1;
        }
        assert(json_views(content@) =~= json_views(self.content@).map_values(
            |j: JsonView| inner_value(j),
        ));
        ObjectBuilder::new().with("id", Json::Text(self.id)).with(
            "type",
            Json::str(self.response_type),
        ).with("role", Json::str(self.role)).with("content", Json::array(content)).with(
            "model",
            Json::Text(self.model),
        ).with("stop_reason", stop_reason).with("stop_sequence", stop_sequence).with(
            "usage",
            usage,
        ).done()
    }
}

/// What came of a request that is not streamed.
#[derive(Debug)]
pub enum CompletedCall {
    /// There is no answer of the backend.
    NoBody,
    /// The backend's answer could not be read.
    Unreadable,
    /// The backend's answer.
    Answer(OpenAIResponse),
}

/// The reply to a request that is not streamed. Identifiers that the backend did not give are
/// generated.
pub fn completed_reply(call: &CompletedCall, requested_model: &str) -> (r: RecordReply)
    ensures
        match call {
            CompletedCall::NoBody => r@ == anthropic_error(
                502,
                "api_error"@,
                "Backend unavailable"@,
            ),
            CompletedCall::Unreadable => r@ == anthropic_error(
                502,
                "api_error"@,
                "Backend returned an unparseable response"@,
            ),
            CompletedCall::Answer(resp) => exists|a: AnthropicResponse, ids: Seq<Seq<char>>|
                {
                    &&& #[trigger] tool_ids_for(first_tool_calls(*resp), ids)
                    &&& is_message_id(a.id@)
                    &&& is_response(a, *resp, requested_model@, a.id@, ids)
                    &&& r@ == (RecordView { status: 200, body: #[trigger] response_json(a) })
                },
        },
{
    match call {
        CompletedCall::NoBody => error_response(502, "api_error", "Backend unavailable"),
        CompletedCall::Unreadable => error_response(
            502,
            "api_error",
            "Backend returned an unparseable response",
        ),
        CompletedCall::Answer(resp) => {
            let a = translate_openai_response(resp, requested_model);
            let ghost ids = choose|ids: Seq<Seq<char>>| #[trigger]
                tool_ids_for(first_tool_calls(*resp), ids) && is_message_id(a.id@) && is_response(
                    a,
                    *resp,
                    requested_model@,
                    a.id@,
                    ids,
                );
            assert(tool_ids_for(first_tool_calls(*resp), ids));
            let body = a.to_value();
            assert(body@ == response_json(a));
            RecordReply { status: 200, body }
        },
    }
}

/// Why a stream cannot be begun; `None` where it can. `status` is the backend's, or none where it
/// could not be reached; `body` is what it said in case of an error.
pub open spec fn stream_refusal(status: Option<u16>, body: Option<Seq<char>>) -> Option<
    RecordView,
> {
    match status {
        None => Some(anthropic_error(502, "api_error"@, "Backend unavailable"@)),
        Some(s) => if is_success(s) {
            None
        } else {
            Some(
                anthropic_error(
                    502,
                    "api_error"@,
                    "Backend error: "@ + (match body {
                        Some(b) => b,
                        None => "Unknown backend error"@,
                    }),
                ),
            )
        },
    }
}

/// Why a stream cannot be begun.
pub fn open_stream(status: Option<u16>, body: Option<&str>) -> (r: Option<RecordReply>)
    ensures
        (match r {
            Some(reply) => Some(reply@),
            None => None,
        }) == stream_refusal(status, opt_str_view(body)),
{
    match status {
        None => Some(error_response(502, "api_error", "Backend unavailable")),
        Some(s) => if 200 <= s && s < 300 {
            None
        } else {
            let text = match body {
                Some(b) => b,
                None => "Unknown backend error",
            };
            Some(error_response(502, "api_error", &"Backend error: ".to_owned().concat(text)))
        },
    }
}

/// Whether the usage of a stream is recorded now: once it is known, or once it has been waited
/// for long enough.
pub fn stream_usage_due(tokens: (i64, i64), deadline_passed: bool) -> (r: bool)
    ensures
        r == (tokens.0 > 0 || tokens.1 > 0 || deadline_passed),
{
    tokens.0 > 0 || tokens.1 > 0 || deadline_passed
}

} // verus!
