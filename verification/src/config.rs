//! The gateway's configuration.
use vstd::prelude::*;
use vstd::string::StringExecFns;
use crate::text::{
    ascii_lower, eq_ignore_ascii_case, number_value, opt_view, parse_unsigned, views,
};

verus! {

/// The configuration.
#[derive(Debug, Clone)]
pub struct AppConfig {
    /// The address to listen on.
    pub listen_addr: String,
    /// The database.
    pub database_url: String,
    /// The TLS certificate.
    pub tls_cert_path: Option<String>,
    /// The TLS key.
    pub tls_key_path: Option<String>,
    /// The bootstrap administrator's name.
    pub bootstrap_user: Option<String>,
    /// The bootstrap administrator's password.
    pub bootstrap_password: Option<String>,
    /// Whether the bootstrap administrator may log in.
    pub break_glass: bool,
    /// The Docker socket.
    pub docker_host: String,
    /// The model directory as this process sees it.
    pub model_path: String,
    /// The model directory as the host sees it.
    pub model_host_path: String,
    /// The portal's static files.
    pub ui_path: String,
    /// The host name of the API.
    pub api_hostname: String,
    /// The host name of the chat interface.
    pub chat_hostname: String,
    /// The domain of session cookies.
    pub cookie_domain: Option<String>,
    /// The network of the backends.
    pub backend_network: String,
    /// The contact for automatic certificates.
    pub acme_contact: Option<String>,
    /// Whether automatic certificates come from the staging service.
    pub acme_staging: bool,
    /// The address of the chat interface's backend.
    pub webui_backend_url: String,
    /// The key that the chat interface calls the API with.
    pub webui_api_key: Option<String>,
    /// How long a request may wait in the queue.
    pub queue_timeout_secs: u64,
    /// Whether session cookies are sent over HTTPS only.
    pub secure_cookies: bool,
    /// The key for secrets in the database.
    pub db_encryption_key: Option<String>,
    /// The key before that.
    pub db_encryption_key_old: Option<String>,
    /// The directory for runtime data.
    pub data_path: String,
}

/// Settings for automatic certificates.
#[derive(Debug, Clone)]
pub struct AcmeSettings {
    pub domains: Vec<String>,
    pub contact: String,
    pub staging: bool,
}

/// The environment variables that the configuration is made from.
#[derive(Debug)]
pub struct EnvVars {
    pub listen_addr: Option<String>,
    pub database_url: Option<String>,
    pub tls_cert_path: Option<String>,
    pub tls_key_path: Option<String>,
    pub bootstrap_user: Option<String>,
    pub bootstrap_password: Option<String>,
    pub break_glass: Option<String>,
    pub docker_host: Option<String>,
    pub model_path: Option<String>,
    pub model_host_path: Option<String>,
    pub ui_path: Option<String>,
    pub api_hostname: Option<String>,
    pub chat_hostname: Option<String>,
    pub cookie_domain: Option<String>,
    pub backend_network: Option<String>,
    pub acme_contact: Option<String>,
    pub acme_staging: Option<String>,
    pub webui_backend_url: Option<String>,
    pub webui_api_key: Option<String>,
    pub queue_timeout_secs: Option<String>,
    pub secure_cookies: Option<String>,
    pub db_encryption_key: Option<String>,
    pub db_encryption_key_old: Option<String>,
    pub data_path: Option<String>,
}

/// The value of a variable, or a default.
pub open spec fn or_text(v: Option<String>, default: Seq<char>) -> Seq<char> {
    match v {
        Some(s) => s@,
        None => default,
    }
}

/// Whether a variable is `true`, whatever the case of its letters.
pub open spec fn is_true(v: Option<String>) -> bool {
    v is Some && ascii_lower(v->0@) == ascii_lower("true"@)
}

/// Whether a variable is anything but `false`, whatever the case of its letters.
pub open spec fn is_not_false(v: Option<String>) -> bool {
    v is Some ==> ascii_lower(v->0@) != ascii_lower("false"@)
}

/// The value of a variable that counts only when it is not empty.
pub open spec fn non_empty(v: Option<String>) -> Option<Seq<char>> {
    match v {
        Some(s) => if s@.len() > 0 {
            Some(s@)
        } else {
            None
        },
        None => None,
    }
}

/// The number in a variable, or 30 where there is none.
pub open spec fn queue_timeout(v: Option<String>) -> int {
    match v {
        Some(s) => match number_value(s@, u64::MAX as int) {
            Ok(n) => n,
            Err(_) => 30,
        },
        None => 30,
    }
}

/// Whether a configuration is the one that the variables ask for.
pub open spec fn is_config_of(c: AppConfig, v: EnvVars) -> bool {
    &&& c.listen_addr@ == or_text(v.listen_addr, "0.0.0.0:443"@)
    &&& c.database_url@ == or_text(v.database_url, "sqlite:///config/sovereign.db"@)
    &&& opt_view(c.tls_cert_path) == opt_view(v.tls_cert_path)
    &&& opt_view(c.tls_key_path) == opt_view(v.tls_key_path)
    &&& opt_view(c.bootstrap_user) == opt_view(v.bootstrap_user)
    &&& opt_view(c.bootstrap_password) == opt_view(v.bootstrap_password)
    &&& c.break_glass == is_true(v.break_glass)
    &&& c.docker_host@ == or_text(v.docker_host, "unix:///var/run/docker.sock"@)
    &&& c.model_path@ == or_text(v.model_path, "/models"@)
    &&& c.model_host_path@ == or_text(v.model_host_path, or_text(v.model_path, "/models"@))
    &&& c.ui_path@ == or_text(v.ui_path, "/app/ui"@)
    &&& c.api_hostname@ == or_text(v.api_hostname, "localhost"@)
    &&& c.chat_hostname@ == or_text(v.chat_hostname, "localhost"@)
    &&& opt_view(c.cookie_domain) == opt_view(v.cookie_domain)
    &&& c.backend_network@ == or_text(v.backend_network, "sovereign-internal"@)
    &&& opt_view(c.acme_contact) == opt_view(v.acme_contact)
    &&& c.acme_staging == is_true(v.acme_staging)
    &&& c.webui_backend_url@ == or_text(v.webui_backend_url, "http://open-webui:8080"@)
    &&& opt_view(c.webui_api_key) == opt_view(v.webui_api_key)
    &&& c.queue_timeout_secs == queue_timeout(v.queue_timeout_secs)
    &&& c.secure_cookies == is_not_false(v.secure_cookies)
    &&& opt_view(c.db_encryption_key) == non_empty(v.db_encryption_key)
    &&& opt_view(c.db_encryption_key_old) == non_empty(v.db_encryption_key_old)
    &&& c.data_path@ == or_text(v.data_path, "/config"@)
}

/// The value of a variable, or a default.
fn text_or(v: Option<String>, default: &str) -> (r: String)
    ensures
        r@ == or_text(v, default@),
{
    match v {
        Some(s) => s,
        None => default.to_owned(),
    }
}

/// The value of a variable that counts only when it is not empty.
fn not_empty(v: Option<String>) -> (r: Option<String>)
    ensures
        opt_view(r) == non_empty(v),
{
    match v {
        Some(s) => if s.as_str().is_empty() {
            None
        } else {
            Some(s)
        },
        None => None,
    }
}

/// `subtle::ConstantTimeEq::ct_eq` on byte slices. The claim: the result says whether the bytes
/// are the same. That the time it takes tells nothing about equally long bytes is not stated.
#[verifier::external_body]
fn bytes_ct_eq(a: &[u8], b: &[u8]) -> (r: bool)
    ensures
        r == (a@ == b@),
{
    subtle::ConstantTimeEq::ct_eq(a, b).into()
}

/// Texts with the same UTF-8 form are the same.
proof fn lemma_same_bytes(a: Seq<char>, b: Seq<char>)
    requires
        vstd::utf8::encode_utf8(a) == vstd::utf8::encode_utf8(b),
    ensures
        a == b,
{
    vstd::utf8::encode_utf8_decode_utf8(a);
    vstd::utf8::encode_utf8_decode_utf8(b);
}

/// Whether two texts are the same, compared in constant time.
fn same_text(a: &str, b: &str) -> (r: bool)
    ensures
        r == (a@ == b@),
{
    let r = bytes_ct_eq(a.as_bytes(), b.as_bytes());
    proof {
        if r {
            lemma_same_bytes(a@, b@);
        }
    }
    r
}

/// A host's address: over HTTPS where cookies are.
pub open spec fn external_url(secure: bool, host: Seq<char>) -> Seq<char> {
    (if secure {
        "https"@
    } else {
        "http"@
    }) + "://"@ + host
}

/// A host's address.
fn make_external_url(secure: bool, host: &str) -> (r: String)
    ensures
        r@ == external_url(secure, host@),
{
    let scheme = if secure {
        "https"
    } else {
        "http"
    };
    scheme.to_owned().concat("://").concat(host)
}

impl AppConfig {
    /// The configuration that the variables ask for.
    pub fn from_env(vars: EnvVars) -> (r: AppConfig)
        ensures
            is_config_of(r, vars),
    {
        let model_path = text_or(vars.model_path, "/models");
        let model_host_path = text_or(vars.model_host_path, &model_path);
        let queue_timeout_secs: u64 = match &vars.queue_timeout_secs {
            Some(s) => match parse_unsigned(s, u64::MAX) {
                Ok(n) => n,
                Err(_) => 30,
            },
            None => 30,
        };
        AppConfig {
            listen_addr: text_or(vars.listen_addr, "0.0.0.0:443"),
            database_url: text_or(vars.database_url, "sqlite:///config/sovereign.db"),
            tls_cert_path: vars.tls_cert_path,
            tls_key_path: vars.tls_key_path,
            bootstrap_user: vars.bootstrap_user,
            bootstrap_password: vars.bootstrap_password,
            break_glass: match &vars.break_glass {
                Some(v) => eq_ignore_ascii_case(v, "true"),
                None => false,
            },
            docker_host: text_or(vars.docker_host, "unix:///var/run/docker.sock"),
            model_path,
            model_host_path,
            ui_path: text_or(vars.ui_path, "/app/ui"),
            api_hostname: text_or(vars.api_hostname, "localhost"),
            chat_hostname: text_or(vars.chat_hostname, "localhost"),
            cookie_domain: vars.cookie_domain,
            backend_network: text_or(vars.backend_network, "sovereign-internal"),
            acme_contact: vars.acme_contact,
            acme_staging: match &vars.acme_staging {
                Some(v) => eq_ignore_ascii_case(v, "true"),
                None => false,
            },
            webui_backend_url: text_or(vars.webui_backend_url, "http://open-webui:8080"),
            webui_api_key: vars.webui_api_key,
            queue_timeout_secs,
            secure_cookies: match &vars.secure_cookies {
                Some(v) => !eq_ignore_ascii_case(v, "false"),
                None => true,
            },
            db_encryption_key: not_empty(vars.db_encryption_key),
            db_encryption_key_old: not_empty(vars.db_encryption_key_old),
            data_path: text_or(vars.data_path, "/config"),
        }
    }

    /// Whether both bootstrap credentials are set.
    pub open spec fn bootstrap_set(&self) -> bool {
        self.bootstrap_user is Some && self.bootstrap_password is Some
    }

    /// Whether the given credentials are the bootstrap ones.
    pub open spec fn bootstrap_matches(&self, user: Seq<char>, password: Seq<char>) -> bool {
        opt_view(self.bootstrap_user) == Some(user) && opt_view(self.bootstrap_password) == Some(
            password,
        )
    }

    /// Whether both bootstrap credentials are set.
    pub fn has_bootstrap_creds(&self) -> (r: bool)
        ensures
            r == self.bootstrap_set(),
    {
        self.bootstrap_user.is_some() && self.bootstrap_password.is_some()
    }

    /// Whether the given credentials are the bootstrap ones. Both are always compared, and in
    /// constant time.
    pub fn validate_bootstrap_creds(&self, user: &str, password: &str) -> (r: bool)
        ensures
            r == self.bootstrap_matches(user@, password@),
    {
        match (&self.bootstrap_user, &self.bootstrap_password) {
            (Some(u), Some(p)) => {
                let user_match = same_text(u, user);
                let pass_match = same_text(p, password);
                user_match && pass_match
            },
            _ => false,
        }
    }

    /// The TLS certificate and key; an error that names the first of them that is missing.
    pub fn tls_paths(&self) -> (r: Result<(&str, &str), &'static str>)
        ensures
            match r {
                Ok((cert, key)) => opt_view(self.tls_cert_path) == Some(cert@) && opt_view(
                    self.tls_key_path,
                ) == Some(key@),
                Err(e) => if self.tls_cert_path is None {
                    e@ == "TLS_CERT_PATH not set"@
                } else {
                    self.tls_key_path is None && e@ == "TLS_KEY_PATH not set"@
                },
            },
    {
        match &self.tls_cert_path {
            None => Err("TLS_CERT_PATH not set"),
            Some(cert) => match &self.tls_key_path {
                None => Err("TLS_KEY_PATH not set"),
                Some(key) => Ok((cert.as_str(), key.as_str())),
            },
        }
    }

    /// The address of the API.
    pub fn api_external_url(&self) -> (r: String)
        ensures
            r@ == external_url(self.secure_cookies, self.api_hostname@),
    {
        make_external_url(self.secure_cookies, &self.api_hostname)
    }

    /// The address of the chat interface.
    pub fn chat_external_url(&self) -> (r: String)
        ensures
            r@ == external_url(self.secure_cookies, self.chat_hostname@),
    {
        make_external_url(self.secure_cookies, &self.chat_hostname)
    }

    /// Settings for automatic certificates of both hosts; none without a contact.
    pub fn acme_config(&self) -> (r: Result<Option<AcmeSettings>, &'static str>)
        ensures
            r is Ok,
            match r->Ok_0 {
                Some(a) => opt_view(self.acme_contact) == Some(a.contact@) && views(a.domains@)
                    == Seq::empty().push(self.api_hostname@).push(self.chat_hostname@) && a.staging
                    == self.acme_staging,
                None => self.acme_contact is None,
            },
    {
        match &self.acme_contact {
            Some(contact) => {
                let mut domains: Vec<String> = Vec::new();
                domains.push(self.api_hostname.clone());
                domains.push(self.chat_hostname.clone());
                assert(views(domains@) =~= Seq::empty().push(self.api_hostname@).push(
                    self.chat_hostname@,
                ));
                Ok(
                    Some(
                        AcmeSettings {
                            domains,
                            contact: contact.clone(),
                            staging: self.acme_staging,
                        },
                    ),
                )
            },
            None => Ok(None),
        }
    }
}

} // verus!
