//! The OpenAI-compatible API.
use vstd::prelude::*;
use vstd::string::StringExecFns;
use crate::api::anthropic::{usage_counts, OpenAIUsage};
use crate::api::gateway::{make_openai_error, openai_error, Refusal, RefusalView};
use crate::json::{json_views, no_fields, Json, JsonView, ObjectBuilder};
use crate::reply::{RecordReply, RecordView, Reply, ReplyView};
use crate::text::{dec, dec_text, opt_view};

verus! {

/// The reply to a refused request.
pub open spec fn openai_refusal(f: RefusalView) -> ReplyView {
    match f {
        RefusalView::ModelNotFound { model } => ReplyView {
            status: 404,
            body: openai_error(
                "Model not found: "@ + model,
                "invalid_request_error"@,
                "model_not_found"@,
            ),
        },
        RefusalView::NotLoaded { message } => ReplyView {
            status: 503,
            body: openai_error(message, "server_error"@, "model_not_loaded"@),
        },
        RefusalView::Reserved => ReplyView {
            status: 503,
            body: openai_error(
                "System is currently reserved for exclusive use"@,
                "server_error"@,
                "system_reserved"@,
            ),
        },
        RefusalView::Busy { .. } => ReplyView {
            status: 429,
            body: openai_error(
                "Server is busy. Please retry later."@,
                "server_error"@,
                "queue_timeout"@,
            ),
        },
    }
}

/// The reply to a refused request.
pub fn refusal_reply(f: &Refusal) -> (r: Reply)
    ensures
        r@ == openai_refusal(f@),
{
    match f {
        Refusal::ModelNotFound { model } => Reply {
            status: 404,
            body: make_openai_error(
                &"Model not found: ".to_owned().concat(model),
                "invalid_request_error",
                "model_not_found",
            ),
        },
        Refusal::NotLoaded { message } => Reply {
            status: 503,
            body: make_openai_error(message, "server_error", "model_not_loaded"),
        },
        Refusal::Reserved => Reply {
            status: 503,
            body: make_openai_error(
                "System is currently reserved for exclusive use",
                "server_error",
                "system_reserved",
            ),
        },
        Refusal::Busy { .. } => Reply {
            status: 429,
            body: make_openai_error(
                "Server is busy. Please retry later.",
                "server_error",
                "queue_timeout",
            ),
        },
    }
}

/// After how many seconds a refused request may be tried again; only a busy system says so.
pub fn retry_after(f: &Refusal) -> (r: Option<String>)
    ensures
        opt_view(r) == (match f@ {
            RefusalView::Busy { retry_after_secs } => Some(dec(retry_after_secs as nat)),
            _ => None,
        }),
{
    match f {
        Refusal::Busy { retry_after_secs } => Some(dec_text(*retry_after_secs as u128)),
        _ => None,
    }
}

/// The reply to a request whose body could not be read; `reason` says why.
pub fn invalid_body(reason: &str) -> (r: Reply)
    ensures
        r@ == (ReplyView {
            status: 200,
            body: openai_error(
                "Invalid request body: "@ + reason@,
                "invalid_request_error"@,
                "invalid_body"@,
            ),
        }),
{
    Reply {
        status: 200,
        body: make_openai_error(
            &"Invalid request body: ".to_owned().concat(reason),
            "invalid_request_error",
            "invalid_body",
        ),
    }
}

/// The token counts of a complete response; zeros where it could not be read (`None`).
pub fn extract_usage_from_response(usage: Option<Option<OpenAIUsage>>) -> (r: (i64, i64))
    ensures
        r == (match usage {
            Some(u) => usage_counts(u),
            None => (0i64, 0i64),
        }),
{
    match usage {
        Some(u) => match u {
            Some(n) => (n.prompt_tokens.unwrap_or(0), n.completion_tokens.unwrap_or(0)),
            None => (0, 0),
        },
        None => (0, 0),
    }
}

/// The entry for a model.
pub open spec fn model_info(hf_repo: Seq<char>) -> JsonView {
    JsonView::Object(
        no_fields().push(("id"@, JsonView::Text(hf_repo))).push(
            ("object"@, JsonView::Text("model"@)),
        ).push(("owned_by"@, JsonView::Text("sovereign-engine"@))),
    )
}

/// What is answered where the models cannot be looked up.
pub fn list_models_failed() -> (r: Reply)
    ensures
        r@ == (ReplyView {
            status: 500,
            body: JsonView::Object(
                no_fields().push(
                    (
                        "error"@,
                        JsonView::Object(
                            no_fields().push(
                                ("message"@, JsonView::Text("Failed to list models"@)),
                            ).push(("type"@, JsonView::Text("server_error"@))),
                        ),
                    ),
                ),
            ),
        }),
{
    let error = ObjectBuilder::new().with("message", Json::str("Failed to list models")).with(
        "type",
        Json::str("server_error"),
    ).done();
    Reply { status: 500, body: ObjectBuilder::new().with("error", error).done() }
}

/// The reply that lists the models that are running.
pub fn list_models(repos: &Vec<String>) -> (r: RecordReply)
    ensures
        r@ == (RecordView {
            status: 200,
            body: JsonView::Object(
                no_fields().push(("object"@, JsonView::Text("list"@))).push(
                    ("data"@, JsonView::Array(repos@.map_values(|s: String| model_info(s@)))),
                ),
            ),
        }),
{
    let mut out: Vec<Json> = Vec::new();
    let mut i: usize = 0;
    while i < repos.len()
        invariant
            i == out@.len(),
            i <= repos@.len(),
            forall|j: int| 0 <= j < i ==> out@[j]@ == model_info(repos@[j]@),
        decreases repos@.len() - i,
    {
        let entry = ObjectBuilder::new().with("id", Json::str(&repos[i])).with(
            "object",
            Json::str("model"),
        ).with("owned_by", Json::str("sovereign-engine")).done();
        out.push(entry);
        i += 1;
    }
    assert(json_views(out@) =~= repos@.map_values(|s: String| model_info(s@)));
    RecordReply {
        status: 200,
        body: ObjectBuilder::new().with("object", Json::str("list")).with(
            "data",
            Json::array(out),
        ).done(),
    }
}

} // verus!
