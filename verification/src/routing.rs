//! Which part of the gateway answers a request, and what other sites may see of it.
use vstd::prelude::*;
use vstd::string::StringExecFns;
use crate::api::anthropic::opt_str_view;
use crate::config::{external_url, AppConfig};
use crate::text::{
    chars_of, find_char, has_prefix, opt_view, position_of, starts_with, str_eq, string_of, views,
};

verus! {

/// A part of the gateway.
#[derive(Debug, Clone, Copy, PartialEq, Eq, Structural)]
pub enum Target {
    /// The chat interface.
    Chat,
    /// The API and the portal.
    Api,
    /// Neither: status 421.
    Misdirected,
}

/// A host without its port.
pub open spec fn host_name(host: Option<Seq<char>>) -> Seq<char> {
    match host {
        Some(h) => h.take(find_char(h, ':')),
        None => Seq::empty(),
    }
}

/// The part of the gateway for a host.
pub open spec fn target_of(host: Seq<char>, api: Seq<char>, chat: Seq<char>) -> Target {
    if host == chat {
        Target::Chat
    } else if host == api {
        Target::Api
    } else {
        Target::Misdirected
    }
}

/// The part of the gateway that answers a request for a host.
pub fn dispatch(host: Option<&str>, config: &AppConfig) -> (r: Target)
    ensures
        r == target_of(
            host_name(opt_str_view(host)),
            config.api_hostname@,
            config.chat_hostname@,
        ),
{
    let name = match host {
        Some(h) => {
            let v = chars_of(h);
            let end: usize = position_of(v.as_slice(), ':', 0);
            assert(h@.skip(0) =~= h@);
            assert(h@.subrange(0, end as int) =~= h@.take(find_char(h@, ':')));
            string_of(vstd::slice::slice_subrange(v.as_slice(), 0, end))
        },
        None => String::new(),
    };
    if str_eq(&name, &config.chat_hostname) {
        Target::Chat
    } else if str_eq(&name, &config.api_hostname) {
        Target::Api
    } else {
        Target::Misdirected
    }
}

/// Whether both parts answer under one host name, so that hosts need not be told apart.
pub fn is_combined(config: &AppConfig) -> (r: bool)
    ensures
        r == (config.api_hostname@ == config.chat_hostname@),
{
    str_eq(&config.api_hostname, &config.chat_hostname)
}

/// How the gateway serves.
#[derive(Debug)]
pub enum ServeMode {
    /// Over HTTPS, with automatic certificates.
    Acme,
    /// Over HTTPS, with the given certificate.
    Tls,
    /// Over HTTP.
    Plain,
}

/// How the gateway serves: automatic certificates come before given ones.
pub fn serve_mode(config: &AppConfig) -> (r: ServeMode)
    ensures
        match r {
            ServeMode::Acme => config.acme_contact is Some,
            ServeMode::Tls => config.acme_contact is None && config.tls_cert_path is Some
                && config.tls_key_path is Some,
            ServeMode::Plain => config.acme_contact is None && (config.tls_cert_path is None
                || config.tls_key_path is None),
        },
{
    if config.acme_contact.is_some() {
        ServeMode::Acme
    } else if config.tls_cert_path.is_some() && config.tls_key_path.is_some() {
        ServeMode::Tls
    } else {
        ServeMode::Plain
    }
}

/// Whether the bootstrap credentials are the well-known default ones.
pub fn has_default_credentials(config: &AppConfig) -> (r: bool)
    ensures
        r == (config.break_glass && config.bootstrap_matches("admin"@, "changeme"@)),
{
    match (&config.bootstrap_user, &config.bootstrap_password) {
        (Some(u), Some(p)) => config.break_glass && str_eq(u, "admin") && str_eq(p, "changeme"),
        _ => false,
    }
}

/// What other sites may do with responses.
#[derive(Debug, Clone, Copy, PartialEq, Eq, Structural)]
pub enum CorsPolicy {
    /// Requests carry a key: any site may call, without the browser's credentials.
    Bearer,
    /// Requests carry a cookie: only the gateway's own sites may call, with credentials.
    Strict,
}

/// The policy for a path.
pub open spec fn policy_of(path: Seq<char>) -> CorsPolicy {
    if path == "/v1"@ || has_prefix(path, "/v1/"@) {
        CorsPolicy::Bearer
    } else {
        CorsPolicy::Strict
    }
}

/// The policy for a path: the API for keys is under `/v1`.
pub fn cors_policy(path: &str) -> (r: CorsPolicy)
    ensures
        r == policy_of(path@),
{
    if str_eq(path, "/v1") || starts_with(path, "/v1/") {
        CorsPolicy::Bearer
    } else {
        CorsPolicy::Strict
    }
}

/// Whether an origin is one of the gateway's own sites.
pub open spec fn is_own_origin(config: AppConfig, origin: Seq<char>) -> bool {
    origin == external_url(config.secure_cookies, config.api_hostname@) || origin == external_url(
        config.secure_cookies,
        config.chat_hostname@,
    )
}

/// The origin that a response allows.
pub open spec fn allowed_origin(
    policy: CorsPolicy,
    config: AppConfig,
    origin: Option<Seq<char>>,
) -> Option<Seq<char>> {
    match policy {
        CorsPolicy::Bearer => Some("*"@),
        CorsPolicy::Strict => match origin {
            Some(o) => if is_own_origin(config, o) {
                Some(o)
            } else {
                None
            },
            None => None,
        },
    }
}

/// The origins that the strict policy allows.
pub fn strict_origins(config: &AppConfig) -> (r: Vec<String>)
    ensures
        views(r@) == Seq::empty().push(
            external_url(config.secure_cookies, config.api_hostname@),
        ).push(external_url(config.secure_cookies, config.chat_hostname@)),
{
    let mut out: Vec<String> = Vec::new();
    out.push(config.api_external_url());
    out.push(config.chat_external_url());
    assert(views(out@) =~= Seq::empty().push(
        external_url(config.secure_cookies, config.api_hostname@),
    ).push(external_url(config.secure_cookies, config.chat_hostname@)));
    out
}

/// The origin that a response allows; none where the request's origin is not allowed.
pub fn cors_allow_origin(policy: CorsPolicy, config: &AppConfig, origin: Option<&str>) -> (r:
    Option<String>)
    ensures
        opt_view(r) == allowed_origin(policy, *config, opt_str_view(origin)),
{
    match policy {
        CorsPolicy::Bearer => Some("*".to_owned()),
        CorsPolicy::Strict => match origin {
            Some(o) => {
                let api = config.api_external_url();
                let chat = config.chat_external_url();
                if str_eq(o, &api) || str_eq(o, &chat) {
                    Some(o.to_owned())
                } else {
                    None
                }
            },
            None => None,
        },
    }
}

/// Whether a response allows the browser's credentials.
pub fn cors_allow_credentials(policy: CorsPolicy) -> (r: bool)
    ensures
        r == (policy == CorsPolicy::Strict),
{
    match policy {
        CorsPolicy::Bearer => false,
        CorsPolicy::Strict => true,
    }
}

/// The policies do not leak into each other: under `/v1` credentials are never allowed, and
/// elsewhere no origin but the gateway's own is.
pub proof fn law_policies_are_isolated(config: AppConfig, path: Seq<char>, origin: Seq<char>)
    ensures
        policy_of(path) == CorsPolicy::Bearer ==> allowed_origin(
            policy_of(path),
            config,
            Some(origin),
        ) == Some("*"@),
        policy_of(path) == CorsPolicy::Strict && !is_own_origin(config, origin)
            ==> allowed_origin(policy_of(path), config, Some(origin)) is None,
        policy_of(path) == CorsPolicy::Strict && is_own_origin(config, origin) ==> allowed_origin(
            policy_of(path),
            config,
            Some(origin),
        ) == Some(origin),
{
}

} // verus!
