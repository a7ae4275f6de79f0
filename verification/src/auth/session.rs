//! Requests with a session cookie or a key.
use vstd::prelude::*;
use crate::api::anthropic::opt_str_view;
use crate::json::{no_fields, Json, JsonView, ObjectBuilder};
use crate::reply::{error_reply, Reply, ReplyView};
use crate::text::{
    after_prefix, contains, occurs, opt_view, split, split_on, strip_prefix, trim, trimmed, views,
};

verus! {

/// The user of an API key.
#[derive(Debug, Clone)]
pub struct AuthUser {
    pub user_id: String,
    pub token_id: String,
    /// The only category of models that the key may use.
    pub category_id: Option<String>,
    /// The only model that the key may use.
    pub specific_model_id: Option<String>,
    pub is_admin: bool,
    /// Whether the key belongs to another part of this system.
    pub is_internal: bool,
}

/// The user of a session.
#[derive(Debug, Clone)]
pub struct SessionAuth {
    pub user_id: String,
    pub is_admin: bool,
    pub email: Option<String>,
    pub display_name: Option<String>,
}

/// The key that a request carries: after `Bearer ` in its authorization, or else in its own
/// header.
pub open spec fn request_key(
    authorization: Option<Seq<char>>,
    x_api_key: Option<Seq<char>>,
) -> Option<Seq<char>> {
    match authorization {
        Some(a) => match after_prefix(a, "Bearer "@) {
            Some(t) => Some(t),
            None => x_api_key,
        },
        None => x_api_key,
    }
}

/// The key that a request carries.
pub fn bearer_token(authorization: Option<&str>, x_api_key: Option<&str>) -> (r: Option<String>)
    ensures
        opt_view(r) == request_key(opt_str_view(authorization), opt_str_view(x_api_key)),
{
    if let Some(a) = authorization {
        if let Some(t) = strip_prefix(a, "Bearer ") {
            return Some(t);
        }
    }
    match x_api_key {
        Some(k) => Some(k.to_owned()),
        None => None,
    }
}

/// The session tokens among the given cookies.
pub open spec fn tokens_in(cookies: Seq<Seq<char>>) -> Seq<Seq<char>>
    decreases cookies.len(),
{
    if cookies.len() == 0 {
        Seq::empty()
    } else {
        let before = tokens_in(cookies.drop_last());
        match after_prefix(trimmed(cookies.last()), "se_session="@) {
            Some(t) => before.push(t),
            None => before,
        }
    }
}

/// All session tokens of a cookie header, in order: a browser may send several cookies with the
/// same name.
pub fn extract_session_tokens(cookie_header: &str) -> (r: Vec<String>)
    ensures
        views(r@) == tokens_in(split_on(cookie_header@, ';')),
{
    let cookies = split(cookie_header, ';');
    let ghost all = views(cookies@);
    let mut out: Vec<String> = Vec::new();
    let mut i: usize = 0;
    assert(views(out@) =~= Seq::empty());
    assert(all.take(0) =~= Seq::empty());
    while i < cookies.len()
        invariant
            all == views(cookies@),
            i <= cookies@.len(),
            views(out@) == tokens_in(all.take(i as int)),
        decreases cookies@.len() - i,
    {
        assert(all.take(i + 1).drop_last() =~= all.take(i as int));
        assert(all.take(i + 1).last() == cookies@[i as int]@);
        let c = trim(&cookies[i]);
        if let Some(t) = strip_prefix(&c, "se_session=") {
            let ghost before = views(out@);
            out.push(t);
            assert(views(out@) =~= before.push(t@));
        }
        i += 1;
    }
    assert(all.take(i as int) =~= all);
    out
}

/// The reply to a request without a valid session.
pub open spec fn unauthenticated() -> ReplyView {
    error_reply(401, "Authentication required"@)
}

/// How a request without a valid session is answered.
#[derive(Debug)]
pub enum Unauthenticated {
    /// A browser is sent to the portal.
    Redirect(String),
    /// Anything else gets a reply.
    Reply(Reply),
}

/// How a request without a valid session is answered: a browser, which accepts HTML, is sent to
/// the portal.
pub fn unauth_response(accept: Option<&str>, portal_url: &str) -> (r: Unauthenticated)
    ensures
        match r {
            Unauthenticated::Redirect(url) => accept is Some && occurs(accept->0@, "text/html"@)
                && url@ == portal_url@,
            Unauthenticated::Reply(reply) => !(accept is Some && occurs(
                accept->0@,
                "text/html"@,
            )) && reply@ == unauthenticated(),
        },
{
    let accepts_html = match accept {
        Some(a) => contains(a, "text/html"),
        None => false,
    };
    if accepts_html {
        Unauthenticated::Redirect(portal_url.to_owned())
    } else {
        Unauthenticated::Reply(Reply::error(401, "Authentication required"))
    }
}

/// Why a request may not reach an administrator's endpoint; `None` where it may.
pub open spec fn admin_refusal(session: Option<SessionAuth>) -> Option<ReplyView> {
    match session {
        None => Some(unauthenticated()),
        Some(s) => if s.is_admin {
            None
        } else {
            Some(error_reply(403, "Admin access required"@))
        },
    }
}

/// Why a request may not reach an administrator's endpoint.
pub fn admin_only(session: Option<&SessionAuth>) -> (r: Option<Reply>)
    ensures
        match r {
            Some(reply) => admin_refusal(
                match session {
                    Some(s) => Some(*s),
                    None => None,
                },
            ) == Some(reply@),
            None => session is Some && session->0.is_admin,
        },
{
    match session {
        None => Some(Reply::error(401, "Authentication required")),
        Some(s) => if s.is_admin {
            None
        } else {
            Some(Reply::error(403, "Admin access required"))
        },
    }
}

/// An optional string as a value.
pub open spec fn opt_text(o: Option<Seq<char>>) -> JsonView {
    match o {
        Some(s) => JsonView::Text(s),
        None => JsonView::Null,
    }
}

/// An optional string as a value.
pub fn make_opt_text(o: &Option<String>) -> (r: Json)
    ensures
        r@ == opt_text(opt_view(*o)),
{
    match o {
        Some(s) => Json::str(s),
        None => Json::Null,
    }
}

/// What a session's user is told about themselves.
pub open spec fn me_reply(session: Option<SessionAuth>, chat_url: Seq<char>) -> ReplyView {
    match session {
        None => unauthenticated(),
        Some(s) => ReplyView {
            status: 200,
            body: JsonView::Object(
                no_fields().push(("user_id"@, JsonView::Text(s.user_id@))).push(
                    ("email"@, opt_text(opt_view(s.email))),
                ).push(("display_name"@, opt_text(opt_view(s.display_name)))).push(
                    ("is_admin"@, JsonView::Bool(s.is_admin)),
                ).push(("chat_url"@, JsonView::Text(chat_url))),
            ),
        },
    }
}

/// What a session's user is told about themselves; a refusal without a session.
pub fn me(session: Option<&SessionAuth>, chat_url: &str) -> (r: Reply)
    ensures
        r@ == me_reply(
            match session {
                Some(s) => Some(*s),
                None => None,
            },
            chat_url@,
        ),
{
    match session {
        None => Reply::error(401, "Authentication required"),
        Some(s) => {
            let body = ObjectBuilder::new().with("user_id", Json::str(&s.user_id)).with(
                "email",
                make_opt_text(&s.email),
            ).with("display_name", make_opt_text(&s.display_name)).with(
                "is_admin",
                Json::Bool(s.is_admin),
            ).with("chat_url", Json::str(chat_url)).done();
            Reply { status: 200, body }
        },
    }
}

} // verus!
