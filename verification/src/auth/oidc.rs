//! Login: through identity providers, or as the bootstrap administrator.
use vstd::prelude::*;
use vstd::string::StringExecFns;
use crate::api::anthropic::opt_str_view;
use crate::auth::bootstrap::{bootstrap_active, is_bootstrap_active, validate_bootstrap};
use crate::auth::rate_limit::{attempt, counter_of, RateLimiter};
use crate::config::{external_url, AppConfig};
use crate::json::{json_views, no_fields, Json, JsonView, ObjectBuilder};
use crate::reply::{error_reply, Reply, ReplyView};
use crate::text::{opt_view, split, split_on, split_whitespace, trim, trimmed, views, words};

verus! {

/// The client that attempts are counted for: the first address in the forwarding header, or one
/// client for all requests without it.
pub open spec fn client_key(x_forwarded_for: Option<Seq<char>>) -> Seq<char> {
    match x_forwarded_for {
        Some(v) => {
            let first = trimmed(split_on(v, ',')[0]);
            if first.len() > 0 {
                first
            } else {
                "global"@
            }
        },
        None => "global"@,
    }
}

/// The client that attempts are counted for.
pub fn extract_client_ip(x_forwarded_for: Option<&str>) -> (r: String)
    ensures
        r@ == client_key(opt_str_view(x_forwarded_for)),
{
    if let Some(v) = x_forwarded_for {
        let parts = split(v, ',');
        assert(views(parts@).len() == parts@.len());
        assert(split_on(v@, ',').len() > 0);
        assert(views(parts@)[0] == parts@[0]@);
        let first = trim(&parts[0]);
        if !first.as_str().is_empty() {
            return first;
        }
    }
    "global".to_owned()
}

/// How a bootstrap login goes on.
#[derive(Debug)]
pub enum BootstrapLogin {
    /// As if there were no such endpoint: status 404 without a body.
    Hidden,
    /// Refused.
    Refused(Reply),
    /// The credentials are right: a session is due.
    Accepted,
}

/// The model of what came of such a login.
pub enum LoginView {
    Hidden,
    Refused(ReplyView),
    Accepted,
}

impl View for BootstrapLogin {
    type V = LoginView;

    open spec fn view(&self) -> LoginView {
        match self {
            BootstrapLogin::Hidden => LoginView::Hidden,
            BootstrapLogin::Refused(reply) => LoginView::Refused(reply@),
            BootstrapLogin::Accepted => LoginView::Accepted,
        }
    }
}

/// What comes of a login as the bootstrap administrator, and the counters after it. Every attempt
/// counts, whatever comes of it, unless the way in is closed.
pub open spec fn login_outcome(
    config: AppConfig,
    counters: Map<Seq<char>, (u32, u64)>,
    key: Seq<char>,
    now: u64,
    user: Seq<char>,
    pass: Seq<char>,
) -> (LoginView, Map<Seq<char>, (u32, u64)>) {
    let (allowed, next) = attempt(counter_of(counters, key), now);
    if !bootstrap_active(config) {
        (LoginView::Hidden, counters)
    } else if !allowed {
        (
            LoginView::Refused(error_reply(429, "Too many login attempts, please wait"@)),
            counters.insert(key, next),
        )
    } else if !config.bootstrap_matches(user, pass) {
        (
            LoginView::Refused(error_reply(401, "Invalid credentials"@)),
            counters.insert(key, next),
        )
    } else {
        (LoginView::Accepted, counters.insert(key, next))
    }
}

/// How a bootstrap login goes on: hidden while bootstrap is off, then limited, then checked.
/// Attempts are counted only while bootstrap is on.
pub fn bootstrap_login(
    config: &AppConfig,
    limiter: &mut RateLimiter,
    x_forwarded_for: Option<&str>,
    now: u64,
    user: &str,
    pass: &str,
) -> (r: BootstrapLogin)
    ensures
        (r@, final(limiter)@) == login_outcome(
            *config,
            old(limiter)@,
            client_key(opt_str_view(x_forwarded_for)),
            now,
            user@,
            pass@,
        ),
{
    if !is_bootstrap_active(config) {
        return BootstrapLogin::Hidden;
    }
    let key = extract_client_ip(x_forwarded_for);
    if !limiter.check_rate_limit(&key, now) {
        return BootstrapLogin::Refused(Reply::error(429, "Too many login attempts, please wait"));
    }
    match validate_bootstrap(config, user, pass) {
        Ok(_) => BootstrapLogin::Accepted,
        Err(_) => BootstrapLogin::Refused(Reply::error(401, "Invalid credentials")),
    }
}

/// How long a session lasts.
pub const SESSION_SECS: i64 = 86400;

/// Where a login through a provider can fail.
#[derive(Debug, Clone, Copy, PartialEq, Eq, Structural)]
pub enum LoginFailure {
    /// The provider is unknown or disabled.
    UnknownProvider,
    /// The provider's settings do not work.
    Provider,
    /// The login could not be recorded.
    Store,
}

/// The reply to a login that failed.
pub open spec fn login_failure_reply(f: LoginFailure) -> ReplyView {
    match f {
        LoginFailure::UnknownProvider => error_reply(400, "IdP not found or disabled"@),
        LoginFailure::Provider => error_reply(500, "OIDC provider configuration error"@),
        LoginFailure::Store => error_reply(500, "Failed to initiate login"@),
    }
}

/// The reply to a login that failed.
pub fn login_failure(f: LoginFailure) -> (r: Reply)
    ensures
        r@ == login_failure_reply(f),
{
    match f {
        LoginFailure::UnknownProvider => Reply::error(400, "IdP not found or disabled"),
        LoginFailure::Provider => Reply::error(500, "OIDC provider configuration error"),
        LoginFailure::Store => Reply::error(500, "Failed to initiate login"),
    }
}

/// Where the return from a provider can fail, in the order in which it is checked.
#[derive(Debug, Clone, Copy, PartialEq, Eq, Structural)]
pub enum CallbackFailure {
    /// The login was not begun here, or too long ago.
    State,
    /// The provider is unknown, or its settings do not work.
    Provider,
    /// The provider has no token endpoint.
    TokenEndpoint,
    /// The provider did not give tokens for the code.
    Exchange,
    /// The provider gave no identity.
    NoIdToken,
    /// The identity could not be verified.
    Verification,
    /// The user could not be recorded.
    User,
    /// The session could not be created.
    Session,
}

/// The reply to a return that failed.
pub open spec fn callback_failure_reply(f: CallbackFailure) -> ReplyView {
    match f {
        CallbackFailure::State => error_reply(400, "Invalid or expired login state"@),
        CallbackFailure::Provider => error_reply(500, "OIDC configuration error"@),
        CallbackFailure::TokenEndpoint => error_reply(500, "Token endpoint not configured"@),
        CallbackFailure::Exchange => error_reply(500, "Token exchange failed"@),
        CallbackFailure::NoIdToken => error_reply(500, "No ID token in response"@),
        CallbackFailure::Verification => error_reply(400, "Token verification failed"@),
        CallbackFailure::User => error_reply(500, "Failed to create user record"@),
        CallbackFailure::Session => error_reply(500, "Failed to create session"@),
    }
}

/// The reply to a return that failed.
pub fn callback_failure(f: CallbackFailure) -> (r: Reply)
    ensures
        r@ == callback_failure_reply(f),
{
    match f {
        CallbackFailure::State => Reply::error(400, "Invalid or expired login state"),
        CallbackFailure::Provider => Reply::error(500, "OIDC configuration error"),
        CallbackFailure::TokenEndpoint => Reply::error(500, "Token endpoint not configured"),
        CallbackFailure::Exchange => Reply::error(500, "Token exchange failed"),
        CallbackFailure::NoIdToken => Reply::error(500, "No ID token in response"),
        CallbackFailure::Verification => Reply::error(400, "Token verification failed"),
        CallbackFailure::User => Reply::error(500, "Failed to create user record"),
        CallbackFailure::Session => Reply::error(500, "Failed to create session"),
    }
}

/// The next thing to do on the return from a provider.
#[derive(Debug, Clone, Copy, PartialEq, Eq, Structural)]
pub enum CallbackStep {
    LoadState,
    LoadProvider,
    BuildClient,
    PrepareExchange,
    Exchange,
    ReadIdToken,
    Verify,
    UpsertUser,
    CreateSession,
    Finish,
}

/// The place of a step in the order of all.
pub open spec fn place_of(step: CallbackStep) -> int {
    match step {
        CallbackStep::LoadState => 0,
        CallbackStep::LoadProvider => 1,
        CallbackStep::BuildClient => 2,
        CallbackStep::PrepareExchange => 3,
        CallbackStep::Exchange => 4,
        CallbackStep::ReadIdToken => 5,
        CallbackStep::Verify => 6,
        CallbackStep::UpsertUser => 7,
        CallbackStep::CreateSession => 8,
        CallbackStep::Finish => 9,
    }
}

/// What follows a step: the next one after a success, the reply after a failure.
pub fn callback_next(step: CallbackStep, succeeded: bool) -> (r: Result<CallbackStep, Reply>)
    ensures
        r is Ok <==> succeeded || step == CallbackStep::Finish,
        r is Ok && step != CallbackStep::Finish ==> place_of(r->Ok_0) == place_of(step) + 1,
        r is Err ==> r->Err_0@.status >= 400,
        match (step, r) {
            (CallbackStep::Finish, Ok(n)) => n == CallbackStep::Finish,
            (CallbackStep::Finish, Err(_)) => false,
            (CallbackStep::LoadState, Ok(n)) => succeeded && n == CallbackStep::LoadProvider,
            (CallbackStep::LoadState, Err(e)) => !succeeded && e@ == callback_failure_reply(
                CallbackFailure::State,
            ),
            (CallbackStep::LoadProvider, Ok(n)) => succeeded && n == CallbackStep::BuildClient,
            (CallbackStep::LoadProvider, Err(e)) => !succeeded && e@ == callback_failure_reply(
                CallbackFailure::Provider,
            ),
            (CallbackStep::BuildClient, Ok(n)) => succeeded && n == CallbackStep::PrepareExchange,
            (CallbackStep::BuildClient, Err(e)) => !succeeded && e@ == callback_failure_reply(
                CallbackFailure::Provider,
            ),
            (CallbackStep::PrepareExchange, Ok(n)) => succeeded && n == CallbackStep::Exchange,
            (CallbackStep::PrepareExchange, Err(e)) => !succeeded && e@ == callback_failure_reply(
                CallbackFailure::TokenEndpoint,
            ),
            (CallbackStep::Exchange, Ok(n)) => succeeded && n == CallbackStep::ReadIdToken,
            (CallbackStep::Exchange, Err(e)) => !succeeded && e@ == callback_failure_reply(
                CallbackFailure::Exchange,
            ),
            (CallbackStep::ReadIdToken, Ok(n)) => succeeded && n == CallbackStep::Verify,
            (CallbackStep::ReadIdToken, Err(e)) => !succeeded && e@ == callback_failure_reply(
                CallbackFailure::NoIdToken,
            ),
            (CallbackStep::Verify, Ok(n)) => succeeded && n == CallbackStep::UpsertUser,
            (CallbackStep::Verify, Err(e)) => !succeeded && e@ == callback_failure_reply(
                CallbackFailure::Verification,
            ),
            (CallbackStep::UpsertUser, Ok(n)) => succeeded && n == CallbackStep::CreateSession,
            (CallbackStep::UpsertUser, Err(e)) => !succeeded && e@ == callback_failure_reply(
                CallbackFailure::User,
            ),
            (CallbackStep::CreateSession, Ok(n)) => succeeded && n == CallbackStep::Finish,
            (CallbackStep::CreateSession, Err(e)) => !succeeded && e@ == callback_failure_reply(
                CallbackFailure::Session,
            ),
        },
{
    match step {
        CallbackStep::LoadState => if succeeded {
            Ok(CallbackStep::LoadProvider)
        } else {
            Err(callback_failure(CallbackFailure::State))
        },
        CallbackStep::LoadProvider => if succeeded {
            Ok(CallbackStep::BuildClient)
        } else {
            Err(callback_failure(CallbackFailure::Provider))
        },
        CallbackStep::BuildClient => if succeeded {
            Ok(CallbackStep::PrepareExchange)
        } else {
            Err(callback_failure(CallbackFailure::Provider))
        },
        CallbackStep::PrepareExchange => if succeeded {
            Ok(CallbackStep::Exchange)
        } else {
            Err(callback_failure(CallbackFailure::TokenEndpoint))
        },
        CallbackStep::Exchange => if succeeded {
            Ok(CallbackStep::ReadIdToken)
        } else {
            Err(callback_failure(CallbackFailure::Exchange))
        },
        CallbackStep::ReadIdToken => if succeeded {
            Ok(CallbackStep::Verify)
        } else {
            Err(callback_failure(CallbackFailure::NoIdToken))
        },
        CallbackStep::Verify => if succeeded {
            Ok(CallbackStep::UpsertUser)
        } else {
            Err(callback_failure(CallbackFailure::Verification))
        },
        CallbackStep::UpsertUser => if succeeded {
            Ok(CallbackStep::CreateSession)
        } else {
            Err(callback_failure(CallbackFailure::User))
        },
        CallbackStep::CreateSession => if succeeded {
            Ok(CallbackStep::Finish)
        } else {
            Err(callback_failure(CallbackFailure::Session))
        },
        CallbackStep::Finish => Ok(CallbackStep::Finish),
    }
}

/// The address of the portal, where a login ends.
pub fn portal_url(config: &AppConfig) -> (r: String)
    ensures
        r@ == external_url(config.secure_cookies, config.api_hostname@) + "/portal/"@,
{
    config.api_external_url().concat("/portal/")
}

/// The address that a provider sends the browser back to.
pub fn redirect_url(api_external_url: &str) -> (r: String)
    ensures
        r@ == api_external_url@ + "/auth/callback"@,
{
    api_external_url.to_owned().concat("/auth/callback")
}

/// The scopes to ask a provider for.
pub fn scope_list(scopes: &str) -> (r: Vec<String>)
    ensures
        views(r@) == words(scopes@),
{
    split_whitespace(scopes)
}

/// The name that a user is shown under: their user name, or else their e-mail address.
pub fn display_name(preferred_username: Option<String>, email: Option<&str>) -> (r: Option<String>)
    ensures
        opt_view(r) == (match preferred_username {
            Some(u) => Some(u@),
            None => opt_str_view(email),
        }),
{
    match preferred_username {
        Some(u) => Some(u),
        None => match email {
            Some(e) => Some(e.to_owned()),
            None => None,
        },
    }
}

/// What to record of a user who logged in.
#[derive(Debug, PartialEq, Eq)]
pub enum UserUpsert {
    /// A known user: what is given replaces what is recorded.
    Update(String),
    /// A new user.
    Create { is_admin: bool },
}

/// What to record of a user who logged in. The first user who does not come from bootstrap
/// becomes an administrator.
pub fn upsert_user(existing_id: Option<String>, other_users: i64) -> (r: UserUpsert)
    ensures
        match existing_id {
            Some(id) => r == UserUpsert::Update(id),
            None => r == (UserUpsert::Create { is_admin: other_users == 0 }),
        },
{
    match existing_id {
        Some(id) => UserUpsert::Update(id),
        None => UserUpsert::Create { is_admin: other_users == 0 },
    }
}

/// The entry for a provider on the login page.
pub open spec fn provider_entry(p: (String, String)) -> JsonView {
    JsonView::Object(
        no_fields().push(("id"@, JsonView::Text(p.0@))).push(("name"@, JsonView::Text(p.1@))),
    )
}

/// What the login page shows: the enabled providers, by identifier and name, and whether the
/// bootstrap form is due.
pub fn list_providers(providers: &Vec<(String, String)>, config: &AppConfig) -> (r: Json)
    ensures
        r@ == JsonView::Object(
            no_fields().push(
                (
                    "providers"@,
                    JsonView::Array(
                        providers@.map_values(|p: (String, String)| provider_entry(p)),
                    ),
                ),
            ).push(("bootstrap_active"@, JsonView::Bool(bootstrap_active(*config)))),
        ),
{
    let mut out: Vec<Json> = Vec::new();
    let mut i: usize = 0;
    while i < providers.len()
        invariant
            i == out@.len(),
            i <= providers@.len(),
            forall|j: int| 0 <= j < i ==> out@[j]@ == provider_entry(providers@[j]),
        decreases providers@.len() - i,
    {
        let entry = ObjectBuilder::new().with("id", Json::str(&providers[i].0)).with(
            "name",
            Json::str(&providers[i].1),
        ).done();
        out.push(entry);
        i += 1;
    }
    assert(json_views(out@) =~= providers@.map_values(|p: (String, String)| provider_entry(p)));
    ObjectBuilder::new().with("providers", Json::array(out)).with(
        "bootstrap_active",
        Json::Bool(is_bootstrap_active(config)),
    ).done()
}

} // verus!
