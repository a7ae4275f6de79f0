//! Rows of the database and how they are reported. Times are kept as their texts.
use vstd::prelude::*;
use crate::auth::session::{make_opt_text, opt_text};
use crate::json::{json_read, no_fields, parse, Json, JsonView, ObjectBuilder};
use crate::text::{dec_int, opt_view};

verus! {

/// A model category.
#[derive(Debug, Clone)]
pub struct ModelCategory {
    pub id: String,
    pub name: String,
    pub description: String,
    pub preferred_model_id: Option<String>,
    pub created_at: String,
}

/// A registered model.
#[derive(Debug, Clone)]
pub struct Model {
    pub id: String,
    pub hf_repo: String,
    pub filename: Option<String>,
    pub size_bytes: i64,
    pub category_id: Option<String>,
    pub loaded: bool,
    pub backend_port: Option<i32>,
    pub backend_type: String,
    pub last_used_at: Option<String>,
    pub created_at: String,
    pub context_length: Option<i64>,
    pub n_layers: Option<i64>,
    pub n_heads: Option<i64>,
    pub n_kv_heads: Option<i64>,
    pub embedding_length: Option<i64>,
    pub key_length: Option<i64>,
    pub value_length: Option<i64>,
    pub sliding_window: Option<i64>,
    pub kv_bytes_per_token_global: Option<i64>,
    pub kv_bytes_per_token_swa: Option<i64>,
    /// The file with the multimodal projector, beside `filename`.
    pub mmproj_filename: Option<String>,
    /// Overrides of the backend's command line, as JSON text.
    pub runtime_overrides: String,
}

/// A user.
#[derive(Debug, Clone)]
pub struct User {
    pub id: String,
    pub idp_id: String,
    pub subject: String,
    pub email: Option<String>,
    pub display_name: Option<String>,
    pub is_admin: bool,
    pub created_at: String,
}

/// An identity provider without its secret.
#[derive(Debug, Clone)]
pub struct IdpConfigPublic {
    pub id: String,
    pub name: String,
    pub issuer: String,
    pub client_id: String,
    pub scopes: String,
    pub enabled: bool,
    pub created_at: String,
}

/// Stored overrides as they are reported: the value that the text holds, and an empty object
/// where the text is not JSON.
pub open spec fn stored_overrides(s: Seq<char>) -> JsonView {
    match json_read(s) {
        Some(v) => v,
        None => JsonView::Object(no_fields()),
    }
}

/// Stored overrides as they are reported.
pub fn serialize_runtime_overrides(s: &str) -> (r: Json)
    ensures
        r@ == stored_overrides(s@),
{
    overrides_or_empty(parse(s))
}

/// The value that was read, and an empty object where there is none.
pub fn overrides_or_empty(read: Option<Json>) -> (r: Json)
    ensures
        r@ == (match read {
            Some(v) => v@,
            None => JsonView::Object(no_fields()),
        }),
{
    match read {
        Some(v) => v,
        None => ObjectBuilder::new().done(),
    }
}

/// An optional number as a value.
pub open spec fn opt_int(n: Option<i64>) -> JsonView {
    match n {
        Some(k) => JsonView::Number(dec_int(k as int)),
        None => JsonView::Null,
    }
}

/// An optional number as a value.
pub fn make_opt_int(n: Option<i64>) -> (r: Json)
    ensures
        r@ == opt_int(n),
{
    match n {
        Some(k) => Json::signed(k),
        None => Json::Null,
    }
}

/// A model as it is reported.
pub open spec fn model_json(m: Model) -> JsonView {
    JsonView::Object(
        no_fields().push(("id"@, JsonView::Text(m.id@))).push(
            ("hf_repo"@, JsonView::Text(m.hf_repo@)),
        ).push(("filename"@, opt_text(opt_view(m.filename)))).push(
            ("size_bytes"@, JsonView::Number(dec_int(m.size_bytes as int))),
        ).push(("category_id"@, opt_text(opt_view(m.category_id)))).push(
            ("loaded"@, JsonView::Bool(m.loaded)),
        ).push(
            (
                "backend_port"@,
                match m.backend_port {
                    Some(p) => JsonView::Number(dec_int(p as int)),
                    None => JsonView::Null,
                },
            ),
        ).push(("backend_type"@, JsonView::Text(m.backend_type@))).push(
            ("last_used_at"@, opt_text(opt_view(m.last_used_at))),
        ).push(("created_at"@, JsonView::Text(m.created_at@))).push(
            ("context_length"@, opt_int(m.context_length)),
        ).push(("n_layers"@, opt_int(m.n_layers))).push(("n_heads"@, opt_int(m.n_heads))).push(
            ("n_kv_heads"@, opt_int(m.n_kv_heads)),
        ).push(("embedding_length"@, opt_int(m.embedding_length))).push(
            ("key_length"@, opt_int(m.key_length)),
        ).push(("value_length"@, opt_int(m.value_length))).push(
            ("sliding_window"@, opt_int(m.sliding_window)),
        ).push(("kv_bytes_per_token_global"@, opt_int(m.kv_bytes_per_token_global))).push(
            ("kv_bytes_per_token_swa"@, opt_int(m.kv_bytes_per_token_swa)),
        ).push(("mmproj_filename"@, opt_text(opt_view(m.mmproj_filename)))).push(
            ("runtime_overrides"@, stored_overrides(m.runtime_overrides@)),
        ),
    )
}

impl Model {
    /// The model as it is reported.
    pub fn to_value(&self) -> (r: Json)
        ensures
            r@ == model_json(*self),
    {
        let port = match self.backend_port {
            Some(p) => Json::signed(p as i64),
            None => Json::Null,
        };
        ObjectBuilder::new().with("id", Json::str(&self.id)).with(
            "hf_repo",
            Json::str(&self.hf_repo),
        ).with("filename", make_opt_text(&self.filename)).with(
            "size_bytes",
            Json::signed(self.size_bytes),
        ).with("category_id", make_opt_text(&self.category_id)).with(
            "loaded",
            Json::Bool(self.loaded),
        ).with("backend_port", port).with("backend_type", Json::str(&self.backend_type)).with(
            "last_used_at",
            make_opt_text(&self.last_used_at),
        ).with("created_at", Json::str(&self.created_at)).with(
            "context_length",
            make_opt_int(self.context_length),
        ).with("n_layers", make_opt_int(self.n_layers)).with(
            "n_heads",
            make_opt_int(self.n_heads),
        ).with("n_kv_heads", make_opt_int(self.n_kv_heads)).with(
            "embedding_length",
            make_opt_int(self.embedding_length),
        ).with("key_length", make_opt_int(self.key_length)).with(
            "value_length",
            make_opt_int(self.value_length),
        ).with("sliding_window", make_opt_int(self.sliding_window)).with(
            "kv_bytes_per_token_global",
            make_opt_int(self.kv_bytes_per_token_global),
        ).with("kv_bytes_per_token_swa", make_opt_int(self.kv_bytes_per_token_swa)).with(
            "mmproj_filename",
            make_opt_text(&self.mmproj_filename),
        ).with("runtime_overrides", serialize_runtime_overrides(&self.runtime_overrides)).done()
    }
}

/// A model category as a value.
pub open spec fn category_json(c: ModelCategory) -> JsonView {
    JsonView::Object(
        no_fields().push(("id"@, JsonView::Text(c.id@))).push(
            ("name"@, JsonView::Text(c.name@)),
        ).push(("description"@, JsonView::Text(c.description@))).push(
            ("preferred_model_id"@, opt_text(opt_view(c.preferred_model_id))),
        ).push(("created_at"@, JsonView::Text(c.created_at@))),
    )
}

impl ModelCategory {
    /// The category as it is reported.
    pub fn to_value(&self) -> (r: Json)
        ensures
            r@ == category_json(*self),
    {
        ObjectBuilder::new().with("id", Json::str(&self.id)).with(
            "name",
            Json::str(&self.name),
        ).with("description", Json::str(&self.description)).with(
            "preferred_model_id",
            make_opt_text(&self.preferred_model_id),
        ).with("created_at", Json::str(&self.created_at)).done()
    }
}

/// The fields of a user as they are reported.
pub open spec fn user_fields(u: User) -> Seq<(Seq<char>, JsonView)> {
    no_fields().push(("id"@, JsonView::Text(u.id@))).push(
        ("idp_id"@, JsonView::Text(u.idp_id@)),
    ).push(("subject"@, JsonView::Text(u.subject@))).push(
        ("email"@, opt_text(opt_view(u.email))),
    ).push(("display_name"@, opt_text(opt_view(u.display_name)))).push(
        ("is_admin"@, JsonView::Bool(u.is_admin)),
    ).push(("created_at"@, JsonView::Text(u.created_at@)))
}

impl User {
    /// The fields of the user as they are reported.
    pub fn to_fields(&self) -> (r: ObjectBuilder)
        ensures
            r@ == user_fields(*self),
    {
        ObjectBuilder::new().with("id", Json::str(&self.id)).with(
            "idp_id",
            Json::str(&self.idp_id),
        ).with("subject", Json::str(&self.subject)).with(
            "email",
            make_opt_text(&self.email),
        ).with("display_name", make_opt_text(&self.display_name)).with(
            "is_admin",
            Json::Bool(self.is_admin),
        ).with("created_at", Json::str(&self.created_at))
    }
}

/// An identity provider as a value.
pub open spec fn idp_json(p: IdpConfigPublic) -> JsonView {
    JsonView::Object(
        no_fields().push(("id"@, JsonView::Text(p.id@))).push(
            ("name"@, JsonView::Text(p.name@)),
        ).push(("issuer"@, JsonView::Text(p.issuer@))).push(
            ("client_id"@, JsonView::Text(p.client_id@)),
        ).push(("scopes"@, JsonView::Text(p.scopes@))).push(
            ("enabled"@, JsonView::Bool(p.enabled)),
        ).push(("created_at"@, JsonView::Text(p.created_at@))),
    )
}

impl IdpConfigPublic {
    /// The provider as it is reported.
    pub fn to_value(&self) -> (r: Json)
        ensures
            r@ == idp_json(*self),
    {
        ObjectBuilder::new().with("id", Json::str(&self.id)).with(
            "name",
            Json::str(&self.name),
        ).with("issuer", Json::str(&self.issuer)).with(
            "client_id",
            Json::str(&self.client_id),
        ).with("scopes", Json::str(&self.scopes)).with(
            "enabled",
            Json::Bool(self.enabled),
        ).with("created_at", Json::str(&self.created_at)).done()
    }
}

} // verus!
