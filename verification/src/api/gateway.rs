//! What both completion APIs share: who is admitted, whom usage is counted for, and how a backend
//! is called and its answer passed on.
use vstd::prelude::*;
use vstd::string::StringExecFns;
use crate::api::anthropic::opt_str_view;
use crate::auth::session::AuthUser;
use crate::json::{no_fields, Json, JsonView, ObjectBuilder};
use crate::reply::{Reply, ReplyView};
use crate::text::{opt_view, str_eq};

verus! {

/// The model that a request is served by.
#[derive(Debug)]
pub struct ResolvedModel {
    pub id: String,
    pub hf_repo: String,
    pub loaded: bool,
    pub backend_type: String,
    pub category_id: Option<String>,
}

/// Why a request is not served.
#[derive(Debug, PartialEq, Eq)]
pub enum Refusal {
    /// There is no such model, or the key may not use it.
    ModelNotFound { model: String },
    /// The model is not running.
    NotLoaded { message: String },
    /// Someone else has reserved the system.
    Reserved,
    /// No backend became free in time.
    Busy { retry_after_secs: u64 },
}

/// The model of a refusal.
pub enum RefusalView {
    ModelNotFound { model: Seq<char> },
    NotLoaded { message: Seq<char> },
    Reserved,
    Busy { retry_after_secs: u64 },
}

impl View for Refusal {
    type V = RefusalView;

    open spec fn view(&self) -> RefusalView {
        match self {
            Refusal::ModelNotFound { model } => RefusalView::ModelNotFound { model: model@ },
            Refusal::NotLoaded { message } => RefusalView::NotLoaded { message: message@ },
            Refusal::Reserved => RefusalView::Reserved,
            Refusal::Busy { retry_after_secs } => RefusalView::Busy {
                retry_after_secs: *retry_after_secs,
            },
        }
    }
}

/// What is said of a model that is not running; a key can have replaced the model that was asked
/// for.
pub open spec fn not_loaded_text(requested: Seq<char>, hf_repo: Seq<char>) -> Seq<char> {
    if hf_repo == requested {
        "Model '"@ + requested + "' is not currently loaded"@
    } else {
        "Model '"@ + hf_repo + "' (overridden by token from '"@ + requested
            + "') is not currently loaded"@
    }
}

/// Why a request is not let through to the queue. `holder` is the user who has reserved the
/// system. Keys of other parts of this system pass a reservation.
pub open spec fn admission(
    requested: Seq<char>,
    user: AuthUser,
    model: Option<ResolvedModel>,
    holder: Option<Seq<char>>,
) -> Option<RefusalView> {
    match model {
        None => Some(RefusalView::ModelNotFound { model: requested }),
        Some(m) => if !m.loaded {
            Some(RefusalView::NotLoaded { message: not_loaded_text(requested, m.hf_repo@) })
        } else if !user.is_internal && holder is Some && holder->0 != user.user_id@ {
            Some(RefusalView::Reserved)
        } else {
            None
        },
    }
}

/// Why a request is not let through to the queue: the model is unknown, then not running, then
/// reserved for someone else.
pub fn check_admission(
    requested: &str,
    user: &AuthUser,
    model: Option<&ResolvedModel>,
    holder: Option<&str>,
) -> (r: Option<Refusal>)
    ensures
        (match r {
            Some(f) => Some(f@),
            None => None,
        }) == admission(
            requested@,
            *user,
            match model {
                Some(m) => Some(*m),
                None => None,
            },
            opt_str_view(holder),
        ),
{
    let m = match model {
        Some(m) => m,
        None => {
            return Some(Refusal::ModelNotFound { model: requested.to_owned() });
        },
    };
    if !m.loaded {
        let message = if str_eq(&m.hf_repo, requested) {
            "Model '".to_owned().concat(requested).concat("' is not currently loaded")
        } else {
            "Model '".to_owned().concat(&m.hf_repo).concat("' (overridden by token from '").concat(
                requested,
            ).concat("') is not currently loaded")
        };
        return Some(Refusal::NotLoaded { message });
    }
    if !user.is_internal {
        if let Some(h) = holder {
            if !str_eq(h, &user.user_id) {
                return Some(Refusal::Reserved);
            }
        }
    }
    None
}

/// While the system is reserved, only its holder and the other parts of this system get through.
pub proof fn law_reservations_are_exclusive(
    requested: Seq<char>,
    user: AuthUser,
    model: ResolvedModel,
    holder: Seq<char>,
)
    requires
        model.loaded,
    ensures
        admission(requested, user, Some(model), Some(holder)) is None <==> user.is_internal
            || user.user_id@ == holder,
        admission(requested, user, Some(model), None) is None,
{
}

/// A model that is not running is reported as such, whatever is reserved.
pub proof fn law_not_loaded_comes_before_reserved(
    requested: Seq<char>,
    user: AuthUser,
    model: ResolvedModel,
    holder: Option<Seq<char>>,
)
    requires
        !model.loaded,
    ensures
        admission(requested, user, Some(model), holder) == Some(
            RefusalView::NotLoaded { message: not_loaded_text(requested, model.hf_repo@) },
        ),
{
}

/// A user whom usage can be counted for, and the token that stands for them.
#[derive(Debug)]
pub struct MetaUser {
    pub user_id: String,
    pub token_id: String,
}

/// Whether the user behind a request has to be looked up by e-mail address: only for a request of
/// another part of this system that names one.
pub fn needs_meta_lookup(user: &AuthUser, email: Option<&str>) -> (r: bool)
    ensures
        r == (user.is_internal && email is Some),
{
    user.is_internal && email.is_some()
}

/// Whom usage is counted for: user and token.
pub open spec fn attribution(
    user: AuthUser,
    email: Option<Seq<char>>,
    found: Option<MetaUser>,
) -> (Seq<char>, Seq<char>) {
    if user.is_internal && email is Some && found is Some {
        (found->0.user_id@, found->0.token_id@)
    } else {
        (user.user_id@, user.token_id@)
    }
}

/// Whom usage is counted for: the user found behind an internal request, or else the key's own.
pub fn attribute_usage(user: &AuthUser, email: Option<&str>, found: Option<MetaUser>) -> (r: (
    String,
    String,
))
    ensures
        (r.0@, r.1@) == attribution(*user, opt_str_view(email), found),
{
    if needs_meta_lookup(user, email) {
        if let Some(m) = found {
            return (m.user_id, m.token_id);
        }
    }
    (user.user_id.clone(), user.token_id.clone())
}

/// A key that is not internal is always counted for its own user, whatever the request names.
pub proof fn law_only_internal_keys_attribute(
    user: AuthUser,
    email: Option<Seq<char>>,
    found: Option<MetaUser>,
)
    requires
        !user.is_internal,
    ensures
        attribution(user, email, found) == (user.user_id@, user.token_id@),
{
}

/// The e-mail address that a request names: in its header, or else in its body.
pub fn user_email(header: Option<String>, body_user: Option<String>) -> (r: Option<String>)
    ensures
        opt_view(r) == (match header {
            Some(h) => Some(h@),
            None => opt_view(body_user),
        }),
{
    match header {
        Some(h) => Some(h),
        None => body_user,
    }
}

/// What is recorded of a request.
#[derive(Debug)]
pub struct UsageEntry {
    pub token_id: String,
    pub user_id: String,
    pub model_id: String,
    pub category_id: Option<String>,
    pub input_tokens: i64,
    pub output_tokens: i64,
    pub latency_ms: i64,
    pub queued_ms: i64,
}

/// What is recorded of a request that a model served.
pub fn usage_entry(
    who: (String, String),
    model: &ResolvedModel,
    tokens: (i64, i64),
    latency_ms: i64,
    queued_ms: i64,
) -> (r: UsageEntry)
    ensures
        r.user_id@ == who.0@,
        r.token_id@ == who.1@,
        r.model_id@ == model.id@,
        opt_view(r.category_id) == opt_view(model.category_id),
        r.input_tokens == tokens.0,
        r.output_tokens == tokens.1,
        r.latency_ms == latency_ms,
        r.queued_ms == queued_ms,
{
    UsageEntry {
        token_id: who.1,
        user_id: who.0,
        model_id: model.id.clone(),
        category_id: match &model.category_id {
            Some(c) => Some(c.clone()),
            None => None,
        },
        input_tokens: tokens.0,
        output_tokens: tokens.1,
        latency_ms,
        queued_ms,
    }
}

/// The views of header names and values.
pub open spec fn header_pairs(s: Seq<(&'static str, String)>) -> Seq<(Seq<char>, Seq<char>)> {
    s.map_values(|h: (&'static str, String)| (h.0@, h.1@))
}

/// The headers of a request to a backend.
pub open spec fn request_headers(api_key: Option<Seq<char>>) -> Seq<(Seq<char>, Seq<char>)> {
    let base = Seq::empty().push(("content-type"@, "application/json"@));
    match api_key {
        Some(k) => base.push(("authorization"@, "Bearer "@ + k)),
        None => base,
    }
}

/// The headers of a request to a backend: its key where it has one.
pub fn backend_request_headers(api_key: Option<&str>) -> (r: Vec<(&'static str, String)>)
    ensures
        header_pairs(r@) == request_headers(opt_str_view(api_key)),
{
    let mut out: Vec<(&'static str, String)> = Vec::new();
    out.push(("content-type", "application/json".to_owned()));
    assert(header_pairs(out@) =~= Seq::empty().push(("content-type"@, "application/json"@)));
    if let Some(k) = api_key {
        let ghost before = out@;
        out.push(("authorization", "Bearer ".to_owned().concat(k)));
        assert(header_pairs(out@) =~= header_pairs(before).push(
            ("authorization"@, "Bearer "@ + k@),
        ));
    }
    out
}

/// Whether a status says that a request succeeded.
pub open spec fn is_success(status: u16) -> bool {
    200 <= status < 300
}

/// Whether a status says that the server failed.
pub open spec fn is_server_error(status: u16) -> bool {
    500 <= status < 600
}

/// Whether a backend has to be looked at: it could not be reached (no status), or it failed.
pub open spec fn has_failed(status: Option<u16>) -> bool {
    match status {
        None => true,
        Some(s) => is_server_error(s),
    }
}

/// Whether the supervisor is told to look at a backend at once: it could not be reached (no
/// status), or it failed.
pub fn kicks_supervisor(status: Option<u16>) -> (r: bool)
    ensures
        r == has_failed(status),
{
    match status {
        None => true,
        Some(s) => 500 <= s && s < 600,
    }
}

/// An error in the OpenAI form.
pub open spec fn openai_error(message: Seq<char>, kind: Seq<char>, code: Seq<char>) -> JsonView {
    JsonView::Object(
        no_fields().push(
            (
                "error"@,
                JsonView::Object(
                    no_fields().push(("message"@, JsonView::Text(message))).push(
                        ("type"@, JsonView::Text(kind)),
                    ).push(("code"@, JsonView::Text(code))),
                ),
            ),
        ),
    )
}

/// An error in the OpenAI form.
pub fn make_openai_error(message: &str, kind: &str, code: &str) -> (r: Json)
    ensures
        r@ == openai_error(message@, kind@, code@),
{
    let detail = ObjectBuilder::new().with("message", Json::str(message)).with(
        "type",
        Json::str(kind),
    ).with("code", Json::str(code)).done();
    ObjectBuilder::new().with("error", detail).done()
}

/// What came of calling a backend.
#[derive(Debug, Clone, Copy, PartialEq, Eq, Structural)]
pub enum BackendCall {
    /// It could not be reached.
    Unreachable,
    /// It answered with a status, and its answer is passed on as it comes.
    Streaming { status: u16 },
    /// It answered with a status and a body.
    Complete { status: u16 },
    /// Its body could not be read.
    BodyLost,
}

/// The reply in place of a backend's answer, where there is none to pass on.
pub open spec fn backend_error(call: BackendCall) -> Option<ReplyView> {
    match call {
        BackendCall::Unreachable => Some(
            ReplyView {
                status: 502,
                body: openai_error(
                    "Backend unavailable"@,
                    "server_error"@,
                    "backend_unavailable"@,
                ),
            },
        ),
        BackendCall::BodyLost => Some(
            ReplyView {
                status: 502,
                body: openai_error(
                    "Failed to read backend response"@,
                    "server_error"@,
                    "backend_error"@,
                ),
            },
        ),
        _ => None,
    }
}

/// The reply in place of a backend's answer, where there is none to pass on.
pub fn backend_error_reply(call: BackendCall) -> (r: Option<Reply>)
    ensures
        (match r {
            Some(reply) => Some(reply@),
            None => None,
        }) == backend_error(call),
{
    match call {
        BackendCall::Unreachable => Some(
            Reply {
                status: 502,
                body: make_openai_error(
                    "Backend unavailable",
                    "server_error",
                    "backend_unavailable",
                ),
            },
        ),
        BackendCall::BodyLost => Some(
            Reply {
                status: 502,
                body: make_openai_error(
                    "Failed to read backend response",
                    "server_error",
                    "backend_error",
                ),
            },
        ),
        _ => None,
    }
}

/// Whether the body of a backend's answer is of use: only a complete and successful one is.
pub open spec fn is_complete_success(call: BackendCall) -> bool {
    match call {
        BackendCall::Complete { status } => is_success(status),
        _ => false,
    }
}

/// Whether the body of a backend's answer is kept, so that usage can be read from it: only a
/// complete and successful one.
pub fn keeps_body(call: BackendCall) -> (r: bool)
    ensures
        r == is_complete_success(call),
{
    match call {
        BackendCall::Complete { status } => 200 <= status && status < 300,
        _ => false,
    }
}

/// The headers of the response that passes on a backend's answer.
pub open spec fn response_headers(
    streaming: bool,
    content_type: Option<Seq<char>>,
    transfer_encoding: Option<Seq<char>>,
) -> Seq<(Seq<char>, Seq<char>)> {
    if streaming {
        let base = Seq::empty().push(("content-type"@, "text/event-stream"@)).push(
            ("cache-control"@, "no-cache"@),
        ).push(("connection"@, "keep-alive"@));
        match transfer_encoding {
            Some(t) => base.push(("transfer-encoding"@, t)),
            None => base,
        }
    } else {
        Seq::empty().push(
            (
                "content-type"@,
                match content_type {
                    Some(c) => c,
                    None => "application/json"@,
                },
            ),
        )
    }
}

/// The headers of the response that passes on a backend's answer.
pub fn passed_on_headers(
    streaming: bool,
    content_type: Option<&str>,
    transfer_encoding: Option<&str>,
) -> (r: Vec<(&'static str, String)>)
    ensures
        header_pairs(r@) == response_headers(
            streaming,
            opt_str_view(content_type),
            opt_str_view(transfer_encoding),
        ),
{
    let mut out: Vec<(&'static str, String)> = Vec::new();
    if streaming {
        out.push(("content-type", "text/event-stream".to_owned()));
        out.push(("cache-control", "no-cache".to_owned()));
        out.push(("connection", "keep-alive".to_owned()));
        if let Some(t) = transfer_encoding {
            out.push(("transfer-encoding", t.to_owned()));
        }
    } else {
        out.push(
            (
                "content-type",
                match content_type {
                    Some(c) => c.to_owned(),
                    None => "application/json".to_owned(),
                },
            ),
        );
    }
    assert(header_pairs(out@) =~= response_headers(
        streaming,
        opt_str_view(content_type),
        opt_str_view(transfer_encoding),
    ));
    out
}

} // verus!
