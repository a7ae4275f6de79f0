//! What the settings, and the hosts and paths of requests, amount to.
use vstd::prelude::*;
use crate::config::{external_url, is_config_of, AppConfig, EnvVars};
use crate::routing::{allowed_origin, host_name, policy_of, target_of, CorsPolicy, Target};
use crate::text::{ascii_lower, dec, find_char, has_prefix, lemma_find_char_first, opt_view};
use crate::text_laws::law_numbers_are_read;

verus! {

/// A setting that is given is taken as it is, each for itself.
pub proof fn law_settings_are_taken(c: AppConfig, v: EnvVars, n: u64)
    requires
        is_config_of(c, v),
    ensures
        v.listen_addr is Some ==> c.listen_addr@ == v.listen_addr->0@,
        v.database_url is Some ==> c.database_url@ == v.database_url->0@,
        v.docker_host is Some ==> c.docker_host@ == v.docker_host->0@,
        v.model_path is Some ==> c.model_path@ == v.model_path->0@,
        v.ui_path is Some ==> c.ui_path@ == v.ui_path->0@,
        v.api_hostname is Some ==> c.api_hostname@ == v.api_hostname->0@,
        v.chat_hostname is Some ==> c.chat_hostname@ == v.chat_hostname->0@,
        v.backend_network is Some ==> c.backend_network@ == v.backend_network->0@,
        v.webui_backend_url is Some ==> c.webui_backend_url@ == v.webui_backend_url->0@,
        v.data_path is Some ==> c.data_path@ == v.data_path->0@,
        v.model_host_path is Some ==> c.model_host_path@ == v.model_host_path->0@,
        v.model_host_path is None ==> c.model_host_path@ == c.model_path@,
        opt_view(c.tls_cert_path) == opt_view(v.tls_cert_path),
        opt_view(c.tls_key_path) == opt_view(v.tls_key_path),
        opt_view(c.bootstrap_user) == opt_view(v.bootstrap_user),
        opt_view(c.bootstrap_password) == opt_view(v.bootstrap_password),
        opt_view(c.cookie_domain) == opt_view(v.cookie_domain),
        opt_view(c.acme_contact) == opt_view(v.acme_contact),
        opt_view(c.webui_api_key) == opt_view(v.webui_api_key),
        v.db_encryption_key is Some && v.db_encryption_key->0@.len() > 0 ==> opt_view(c.db_encryption_key) == Some(
            v.db_encryption_key->0@,
        ),
        v.db_encryption_key is None || v.db_encryption_key->0@.len() == 0 ==> c.db_encryption_key is None,
        v.db_encryption_key_old is Some && v.db_encryption_key_old->0@.len() > 0 ==> opt_view(c.db_encryption_key_old) == Some(
            v.db_encryption_key_old->0@,
        ),
        v.db_encryption_key_old is None || v.db_encryption_key_old->0@.len() == 0 ==> c.db_encryption_key_old is None,
        v.queue_timeout_secs is Some && v.queue_timeout_secs->0@ == dec(n as nat)
            ==> c.queue_timeout_secs == n,
        v.queue_timeout_secs is None ==> c.queue_timeout_secs == 30,
{
    law_numbers_are_read(n as nat, u64::MAX as int);
}

/// A setting that is not given has its default.
pub proof fn law_settings_have_defaults(c: AppConfig, v: EnvVars)
    requires
        is_config_of(c, v),
    ensures
        v.listen_addr is None ==> c.listen_addr@ == "0.0.0.0:443"@,
        v.database_url is None ==> c.database_url@ == "sqlite:///config/sovereign.db"@,
        v.docker_host is None ==> c.docker_host@ == "unix:///var/run/docker.sock"@,
        v.model_path is None ==> c.model_path@ == "/models"@,
        v.ui_path is None ==> c.ui_path@ == "/app/ui"@,
        v.api_hostname is None ==> c.api_hostname@ == "localhost"@,
        v.chat_hostname is None ==> c.chat_hostname@ == "localhost"@,
        v.backend_network is None ==> c.backend_network@ == "sovereign-internal"@,
        v.webui_backend_url is None ==> c.webui_backend_url@ == "http://open-webui:8080"@,
        v.data_path is None ==> c.data_path@ == "/config"@,
        v.break_glass is None ==> !c.break_glass,
        v.acme_staging is None ==> !c.acme_staging,
        v.secure_cookies is None ==> c.secure_cookies,
{
}

/// What is off by default is switched on by `true`, and what is on by default is switched off by
/// `false`, in any case of the letters, and by nothing else.
pub proof fn law_switches(c: AppConfig, v: EnvVars)
    requires
        is_config_of(c, v),
    ensures
        v.break_glass is Some ==> (c.break_glass <==> ascii_lower(v.break_glass->0@) == "true"@),
        v.acme_staging is Some ==> (c.acme_staging <==> ascii_lower(v.acme_staging->0@)
            == "true"@),
        v.secure_cookies is Some ==> (c.secure_cookies <==> ascii_lower(v.secure_cookies->0@)
            != "false"@),
{
    reveal_strlit("true");
    reveal_strlit("false");
    assert(ascii_lower("true"@) =~= "true"@);
    assert(ascii_lower("false"@) =~= "false"@);
}

/// The address of a host says whether it is reached over HTTPS.
pub proof fn law_external_urls(host: Seq<char>)
    ensures
        external_url(true, host) == "https://"@ + host,
        external_url(false, host) == "http://"@ + host,
{
    reveal_strlit("https");
    reveal_strlit("http");
    reveal_strlit("://");
    reveal_strlit("https://");
    reveal_strlit("http://");
    assert(external_url(true, host) =~= "https://"@ + host);
    assert(external_url(false, host) =~= "http://"@ + host);
}

/// A request goes where its host says, whatever the port; a host that is not known is refused.
pub proof fn law_hosts(h: Seq<char>, port: Seq<char>, api: Seq<char>, chat: Seq<char>)
    requires
        !h.contains(':'),
    ensures
        host_name(Some(h)) == h,
        host_name(Some(h.push(':') + port)) == h,
        target_of(chat, api, chat) == Target::Chat,
        api != chat ==> target_of(api, api, chat) == Target::Api,
        h != api && h != chat ==> target_of(h, api, chat) == Target::Misdirected,
{
    lemma_find_char_first(h, ':');
    let i = find_char(h, ':');
    if i < h.len() {
        assert(h[i] == ':');
    }
    assert(h.take(h.len() as int) =~= h);
    let v = h.push(':') + port;
    lemma_find_char_first(v, ':');
    let k = find_char(v, ':');
    assert(v[h.len() as int] == ':');
    if k < h.len() {
        assert(v[k] == h[k]);
        assert(h.contains(':'));
    }
    assert(v.take(h.len() as int) =~= h);
}

/// What is below `/v1` is called with a key, from any site; everything else with a cookie, from the
/// gateway's own sites only.
pub proof fn law_paths(rest: Seq<char>, other: Seq<char>, c: AppConfig, origin: Seq<char>)
    requires
        other != "/v1"@ && !has_prefix(other, "/v1/"@),
    ensures
        policy_of("/v1/"@ + rest) == CorsPolicy::Bearer,
        policy_of("/v1"@) == CorsPolicy::Bearer,
        policy_of(other) == CorsPolicy::Strict,
        allowed_origin(CorsPolicy::Bearer, c, Some(origin)) == Some("*"@),
        allowed_origin(CorsPolicy::Strict, c, Some(origin)) is Some <==> origin == external_url(
            c.secure_cookies,
            c.api_hostname@,
        ) || origin == external_url(c.secure_cookies, c.chat_hostname@),
        allowed_origin(CorsPolicy::Strict, c, Some(origin)) is Some ==> allowed_origin(
            CorsPolicy::Strict,
            c,
            Some(origin),
        ) == Some(origin),
        allowed_origin(CorsPolicy::Strict, c, None) is None,
{
    let p = "/v1/"@ + rest;
    assert(p.subrange(0, "/v1/"@.len() as int) =~= "/v1/"@);
}

} // verus!
