//! The administrators' API: changing rows, deleting models, settings and reports.
use vstd::prelude::*;
use vstd::string::StringExecFns;
use crate::api::common::{state_name, ContainerState};
use crate::api::downloads::{repo_dir, safe_repo, DiskUsage};
use crate::auth::session::{make_opt_text, opt_text};
use crate::db::models::{make_opt_int, opt_int, user_fields, User};
use crate::docker::runtime_overrides::{
    law_older_form_is_read, lemma_overrides_readable, no_launch, overrides_error, overrides_json,
    read_stored, ModelRuntimeOverrides, OverridesErrorView, WrappedView,
};
use crate::json::{
    json_read, json_views, no_fields, record_text, text_views, to_record_text, Json, JsonView,
    ObjectBuilder, READ_DEPTH,
};
use crate::metrics::GpuMemoryInfo;
use crate::reply::{error_reply, Reply, ReplyView};
use crate::text::{dec, dec_int, dec_text, opt_view, str_eq};

verus! {

/// A value to store in a column.
#[derive(Debug, PartialEq, Eq)]
pub enum ColumnValue {
    Text(String),
    Flag(bool),
}

/// The model of a column's value.
pub enum ColumnValueView {
    Text(Seq<char>),
    Flag(bool),
}

/// A column and its new value.
#[derive(Debug, PartialEq, Eq)]
pub struct Assignment {
    pub column: &'static str,
    pub value: ColumnValue,
}

/// The model of an assignment: the column and its value.
pub struct AssignmentView {
    pub column: Seq<char>,
    pub value: ColumnValueView,
}

impl View for Assignment {
    type V = AssignmentView;

    open spec fn view(&self) -> AssignmentView {
        AssignmentView {
            column: self.column@,
            value: match self.value {
                ColumnValue::Text(s) => ColumnValueView::Text(s@),
                ColumnValue::Flag(b) => ColumnValueView::Flag(b),
            },
        }
    }
}

/// The models of a list of assignments.
pub open spec fn assignment_views(s: Seq<Assignment>) -> Seq<AssignmentView> {
    s.map_values(|a: Assignment| a@)
}

/// The assignments so far and, where a text is given, one of it to a column.
pub open spec fn with_text(
    s: Seq<AssignmentView>,
    column: Seq<char>,
    value: Option<Seq<char>>,
) -> Seq<AssignmentView> {
    match value {
        Some(t) => s.push(AssignmentView { column, value: ColumnValueView::Text(t) }),
        None => s,
    }
}

/// Assigns a text to a column, where one is given.
fn set_text(out: &mut Vec<Assignment>, column: &'static str, value: &Option<String>)
    ensures
        assignment_views(final(out)@) == with_text(
            assignment_views(old(out)@),
            column@,
            opt_view(*value),
        ),
{
    if let Some(t) = value {
        out.push(Assignment { column, value: ColumnValue::Text(t.clone()) });
        assert(assignment_views(out@) =~= with_text(
            assignment_views(old(out)@),
            column@,
            opt_view(*value),
        ));
    }
}

/// The assignments as the list of an UPDATE statement: each column with a placeholder.
pub open spec fn set_list(s: Seq<AssignmentView>) -> Seq<char>
    decreases s.len(),
{
    if s.len() == 0 {
        Seq::empty()
    } else if s.len() == 1 {
        s[0].column + " = ?"@
    } else {
        set_list(s.drop_last()) + ", "@ + s.last().column + " = ?"@
    }
}

/// The statement that makes the assignments in one row of a table.
pub open spec fn update_sql(table: Seq<char>, s: Seq<AssignmentView>) -> Seq<char> {
    "UPDATE "@ + table + " SET "@ + set_list(s) + " WHERE id = ?"@
}

/// A change to one row. The values go to the statement's placeholders in order, then the row's id.
#[derive(Debug, PartialEq, Eq)]
pub struct RowUpdate {
    pub sql: String,
    pub assignments: Vec<Assignment>,
}

/// The statement for a list of assignments.
fn update_statement(table: &str, assignments: &Vec<Assignment>) -> (r: String)
    ensures
        r@ == update_sql(table@, assignment_views(assignments@)),
{
    let mut list: String = String::new();
    let mut i: usize = 0;
    let ghost v = assignment_views(assignments@);
    while i < assignments.len()
        invariant
            i <= assignments@.len(),
            v == assignment_views(assignments@),
            list@ == set_list(v.take(i as int)),
        decreases assignments@.len() - i,
    {
        proof {
            assert(v.take(i + 1).drop_last() =~= v.take(i as int));
        }
        if i > 0 {
            list.append(", ");
        }
        list.append(assignments[i].column);
        list.append(" = ?");
        proof {
            let w = v.take(i + 1);
            if i == 0 {
                assert(list@ =~= w[0].column + " = ?"@);
            } else {
                assert(list@ =~= set_list(w.drop_last()) + ", "@ + w.last().column + " = ?"@);
            }
        }
        i += 1;
    }
    assert(v.take(i as int) =~= v);
    let r = "UPDATE ".to_owned().concat(table).concat(" SET ").concat(&list).concat(
        " WHERE id = ?",
    );
    assert(r@ =~= update_sql(table@, v));
    r
}

/// What an update is answered that sets nothing.
pub open spec fn nothing_to_update() -> ReplyView {
    error_reply(400, "No fields to update"@)
}

/// Whether a change is what `s` asks for: the change itself, or a refusal where that is nothing.
pub open spec fn updates(
    r: Result<RowUpdate, Reply>,
    table: Seq<char>,
    s: Seq<AssignmentView>,
) -> bool {
    match r {
        Ok(u) => s.len() > 0 && assignment_views(u.assignments@) == s && u.sql@ == update_sql(
            table,
            s,
        ),
        Err(e) => s.len() == 0 && e@ == nothing_to_update(),
    }
}

/// The change that makes the assignments.
fn row_update(table: &str, assignments: Vec<Assignment>) -> (r: Result<RowUpdate, Reply>)
    ensures
        updates(r, table@, assignment_views(assignments@)),
{
    if assignments.len() == 0 {
        return Err(Reply::error(400, "No fields to update"));
    }
    let sql = update_statement(table, &assignments);
    Ok(RowUpdate { sql, assignments })
}

/// A request to change an identity provider. What is not given stays.
#[derive(Debug)]
pub struct UpdateIdpRequest {
    pub name: Option<String>,
    pub issuer: Option<String>,
    pub client_id: Option<String>,
    /// The client secret, in the form in which it is stored.
    pub client_secret_enc: Option<String>,
    pub scopes: Option<String>,
    pub enabled: Option<bool>,
}

/// What a request to change an identity provider sets.
pub open spec fn idp_assignments(q: UpdateIdpRequest) -> Seq<AssignmentView> {
    let s = with_text(Seq::empty(), "name"@, opt_view(q.name));
    let s = with_text(s, "issuer"@, opt_view(q.issuer));
    let s = with_text(s, "client_id"@, opt_view(q.client_id));
    let s = with_text(s, "client_secret_enc"@, opt_view(q.client_secret_enc));
    let s = with_text(s, "scopes"@, opt_view(q.scopes));
    match q.enabled {
        Some(b) => s.push(
            AssignmentView { column: "enabled"@, value: ColumnValueView::Flag(b) },
        ),
        None => s,
    }
}

/// The change to an identity provider; `refusal` is what the checks of the request came to, and
/// `found` says whether there is such a provider.
pub fn update_idp(refusal: Option<Reply>, found: bool, q: &UpdateIdpRequest) -> (r: Result<
    RowUpdate,
    Reply,
>)
    ensures
        match refusal {
            Some(reply) => r is Err && r->Err_0@ == reply@,
            None => if found {
                updates(r, "idp_configs"@, idp_assignments(*q))
            } else {
                r is Err && r->Err_0@ == error_reply(404, "IdP not found"@)
            },
        },
{
    if let Some(reply) = refusal {
        return Err(reply);
    }
    if !found {
        return Err(Reply::error(404, "IdP not found"));
    }
    let mut out: Vec<Assignment> = Vec::new();
    assert(assignment_views(out@) =~= Seq::empty());
    set_text(&mut out, "name", &q.name);
    set_text(&mut out, "issuer", &q.issuer);
    set_text(&mut out, "client_id", &q.client_id);
    set_text(&mut out, "client_secret_enc", &q.client_secret_enc);
    set_text(&mut out, "scopes", &q.scopes);
    if let Some(b) = q.enabled {
        let ghost before = assignment_views(out@);
        out.push(Assignment { column: "enabled", value: ColumnValue::Flag(b) });
        assert(assignment_views(out@) =~= before.push(
            AssignmentView { column: "enabled"@, value: ColumnValueView::Flag(b) },
        ));
    }
    row_update("idp_configs", out)
}

/// A request to change a model category. What is not given stays.
#[derive(Debug)]
pub struct UpdateCategoryRequest {
    pub name: Option<String>,
    pub description: Option<String>,
    pub preferred_model_id: Option<String>,
}

/// What a request to change a category sets.
pub open spec fn category_assignments(q: UpdateCategoryRequest) -> Seq<AssignmentView> {
    let s = with_text(Seq::empty(), "name"@, opt_view(q.name));
    let s = with_text(s, "description"@, opt_view(q.description));
    with_text(s, "preferred_model_id"@, opt_view(q.preferred_model_id))
}

/// The change to a model category; `refusal` is what the checks of the request came to.
pub fn update_category(refusal: Option<Reply>, q: &UpdateCategoryRequest) -> (r: Result<
    RowUpdate,
    Reply,
>)
    ensures
        match refusal {
            Some(reply) => r is Err && r->Err_0@ == reply@,
            None => updates(r, "model_categories"@, category_assignments(*q)),
        },
{
    if let Some(reply) = refusal {
        return Err(reply);
    }
    let mut out: Vec<Assignment> = Vec::new();
    assert(assignment_views(out@) =~= Seq::empty());
    set_text(&mut out, "name", &q.name);
    set_text(&mut out, "description", &q.description);
    set_text(&mut out, "preferred_model_id", &q.preferred_model_id);
    row_update("model_categories", out)
}

/// How many placeholders a text holds.
pub open spec fn placeholders(s: Seq<char>) -> nat
    decreases s.len(),
{
    if s.len() == 0 {
        0
    } else {
        placeholders(s.drop_last()) + (if s.last() == '?' {
            1nat
        } else {
            0nat
        })
    }
}

proof fn lemma_placeholders_add(a: Seq<char>, b: Seq<char>)
    ensures
        placeholders(a + b) == placeholders(a) + placeholders(b),
    decreases b.len(),
{
    if b.len() == 0 {
        assert(a + b =~= a);
    } else {
        assert((a + b).drop_last() =~= a + b.drop_last());
        lemma_placeholders_add(a, b.drop_last());
    }
}

proof fn lemma_no_placeholders(s: Seq<char>)
    requires
        forall|i: int| 0 <= i < s.len() ==> s[i] != '?',
    ensures
        placeholders(s) == 0,
    decreases s.len(),
{
    if s.len() > 0 {
        lemma_no_placeholders(s.drop_last());
    }
}

proof fn lemma_set_list_placeholders(s: Seq<AssignmentView>)
    requires
        forall|i: int| 0 <= i < s.len() ==> placeholders((#[trigger] s[i]).column) == 0,
    ensures
        placeholders(set_list(s)) == s.len(),
    decreases s.len(),
{
    reveal_strlit(" = ?");
    reveal_strlit(", ");
    reveal_with_fuel(placeholders, 6);
    if s.len() == 1 {
        lemma_placeholders_add(s[0].column, " = ?"@);
    } else if s.len() > 1 {
        let rest = s.drop_last();
        assert forall|i: int| 0 <= i < rest.len() implies placeholders(
            (#[trigger] rest[i]).column,
        ) == 0 by {
            assert(rest[i] == s[i]);
        }
        lemma_set_list_placeholders(rest);
        lemma_placeholders_add(set_list(rest), ", "@);
        lemma_placeholders_add(set_list(rest) + ", "@, s.last().column);
        lemma_placeholders_add(set_list(rest) + ", "@ + s.last().column, " = ?"@);
    }
}

proof fn lemma_update_placeholders(table: Seq<char>, s: Seq<AssignmentView>)
    requires
        placeholders(table) == 0,
        forall|i: int| 0 <= i < s.len() ==> placeholders((#[trigger] s[i]).column) == 0,
    ensures
        placeholders(update_sql(table, s)) == s.len() + 1,
{
    lemma_set_list_placeholders(s);
    reveal_strlit("UPDATE ");
    reveal_strlit(" SET ");
    reveal_strlit(" WHERE id = ?");
    lemma_no_placeholders("UPDATE "@);
    lemma_no_placeholders(" SET "@);
    lemma_no_placeholders(" WHERE id = ?"@.drop_last());
    lemma_placeholders_add("UPDATE "@, table);
    lemma_placeholders_add("UPDATE "@ + table, " SET "@);
    lemma_placeholders_add("UPDATE "@ + table + " SET "@, set_list(s));
    lemma_placeholders_add("UPDATE "@ + table + " SET "@ + set_list(s), " WHERE id = ?"@);
}

/// The statement that changes an identity provider has a placeholder for each value that is set
/// and one for the row's id.
pub proof fn law_idp_values_have_placeholders(q: UpdateIdpRequest)
    ensures
        placeholders(update_sql("idp_configs"@, idp_assignments(q))) == idp_assignments(q).len() + 1,
{
    reveal_strlit("idp_configs");
    lemma_no_placeholders("idp_configs"@);
    reveal_strlit("name");
    lemma_no_placeholders("name"@);
    reveal_strlit("issuer");
    lemma_no_placeholders("issuer"@);
    reveal_strlit("client_id");
    lemma_no_placeholders("client_id"@);
    reveal_strlit("client_secret_enc");
    lemma_no_placeholders("client_secret_enc"@);
    reveal_strlit("scopes");
    lemma_no_placeholders("scopes"@);
    reveal_strlit("enabled");
    lemma_no_placeholders("enabled"@);
    lemma_update_placeholders("idp_configs"@, idp_assignments(q));
}

/// The statement that changes a category has a placeholder for each value that is set and one for
/// the row's id.
pub proof fn law_category_values_have_placeholders(q: UpdateCategoryRequest)
    ensures
        placeholders(update_sql("model_categories"@, category_assignments(q)))
            == category_assignments(q).len() + 1,
{
    reveal_strlit("model_categories");
    lemma_no_placeholders("model_categories"@);
    reveal_strlit("name");
    lemma_no_placeholders("name"@);
    reveal_strlit("description");
    lemma_no_placeholders("description"@);
    reveal_strlit("preferred_model_id");
    lemma_no_placeholders("preferred_model_id"@);
    lemma_update_placeholders("model_categories"@, category_assignments(q));
}

/// A reply with a status word.
pub open spec fn status_reply(word: Seq<char>) -> ReplyView {
    ReplyView {
        status: 200,
        body: JsonView::Object(no_fields().push(("status"@, JsonView::Text(word)))),
    }
}

/// What is answered after a statement on one row: an error where it met no row.
pub fn affected_reply(rows_affected: u64, done: &str, missing: &str) -> (r: Reply)
    ensures
        r@ == (if rows_affected == 0 {
            error_reply(404, missing@)
        } else {
            status_reply(done@)
        }),
{
    if rows_affected == 0 {
        Reply::error(404, missing)
    } else {
        Reply { status: 200, body: ObjectBuilder::new().with("status", Json::str(done)).done() }
    }
}

/// What is answered after a row was made: its id and one more of its fields.
pub fn created_reply(id: &str, field: &str, value: &str) -> (r: Reply)
    ensures
        r@ == (ReplyView {
            status: 201,
            body: JsonView::Object(
                no_fields().push(("id"@, JsonView::Text(id@))).push((field@, JsonView::Text(value@))),
            ),
        }),
{
    Reply {
        status: 201,
        body: ObjectBuilder::new().with("id", Json::str(id)).with(field, Json::str(value)).done(),
    }
}

/// The text that is given, or else a default.
fn text_or(o: Option<String>, default: &str) -> (r: String)
    ensures
        r@ == (match o {
            Some(s) => s@,
            None => default@,
        }),
{
    match o {
        Some(s) => s,
        None => default.to_owned(),
    }
}

/// The scopes that a new identity provider is asked for.
pub fn new_idp_scopes(scopes: Option<String>) -> (r: String)
    ensures
        r@ == (match scopes {
            Some(s) => s@,
            None => "openid email profile"@,
        }),
{
    text_or(scopes, "openid email profile")
}

/// The description of a new category.
pub fn new_category_description(description: Option<String>) -> (r: String)
    ensures
        r@ == (match description {
            Some(s) => s@,
            None => ""@,
        }),
{
    text_or(description, "")
}

/// The backend of a newly registered model.
pub fn new_model_backend(backend_type: Option<String>) -> (r: String)
    ensures
        r@ == (match backend_type {
            Some(s) => s@,
            None => "llamacpp"@,
        }),
{
    text_or(backend_type, "llamacpp")
}

/// A change to a model's row: the statement, and the overrides to store where it sets them.
#[derive(Debug, PartialEq, Eq)]
pub struct ModelUpdate {
    pub sql: &'static str,
    pub runtime_overrides: Option<String>,
}

/// The change to a model. Overrides are stored as JSON text, from which a later start reads them
/// back, and are refused where they break a rule; without any, only the category changes.
pub fn update_model(overrides: Option<&ModelRuntimeOverrides>) -> (r: Result<ModelUpdate, Reply>)
    ensures
        match overrides {
            None => r is Ok && r->Ok_0.sql@ == "UPDATE models SET category_id = ? WHERE id = ?"@
                && r->Ok_0.runtime_overrides is None,
            Some(o) => match overrides_error(o@) {
                Some(reason) => r is Err && r->Err_0@ == error_reply(400, reason),
                None => r is Ok && r->Ok_0.sql@
                    == "UPDATE models SET category_id = ?, runtime_overrides = ? WHERE id = ?"@
                    && opt_view(r->Ok_0.runtime_overrides) == Some(record_text(overrides_json(o@)))
                    && read_stored(r->Ok_0.runtime_overrides->0@) == Ok::<
                    WrappedView,
                    OverridesErrorView,
                >(WrappedView { cli: o@, launch: no_launch() }),
            },
        },
{
    match overrides {
        None => Ok(
            ModelUpdate {
                sql: "UPDATE models SET category_id = ? WHERE id = ?",
                runtime_overrides: None,
            },
        ),
        Some(o) => match o.validate() {
            Err(reason) => Err(Reply::error(400, &reason)),
            Ok(_) => {
                let value = o.to_value();
                proof {
                    lemma_overrides_readable(o@, READ_DEPTH as nat);
                }
                let text = to_record_text(&value);
                proof {
                    law_older_form_is_read(o@, json_read(text@)->0);
                }
                Ok(
                    ModelUpdate {
                        sql: "UPDATE models SET category_id = ?, runtime_overrides = ? WHERE id = ?",
                        runtime_overrides: Some(text),
                    },
                )
            },
        },
    }
}

/// What is answered to a change of a user: `None` for `rows_affected` where nothing was to change.
pub fn update_user_reply(rows_affected: Option<u64>) -> (r: Reply)
    ensures
        r@ == (if rows_affected == Some(0u64) {
            error_reply(404, "User not found"@)
        } else {
            status_reply("updated"@)
        }),
{
    match rows_affected {
        Some(n) => affected_reply(n, "updated", "User not found"),
        None => affected_reply(1, "updated", "User not found"),
    }
}

/// The model to delete.
#[derive(Debug)]
pub struct DeletableModel {
    pub id: String,
    pub hf_repo: String,
    pub loaded: bool,
    pub backend_type: String,
}

/// An active token that is pinned to a model.
#[derive(Debug)]
pub struct BlockingToken {
    pub id: String,
    pub name: String,
    pub user_email: Option<String>,
}

/// What to do to delete a model, one step after the other.
#[derive(Debug, PartialEq, Eq)]
pub enum DeleteStep {
    /// Revoke and soft-delete a token.
    RevokeToken { id: String },
    /// Stop the backend, and go on where that fails.
    StopBackend { model_id: String, backend_type: String },
    /// Forget the backend that was stopped.
    CleanUp { model_id: String },
    /// Open a transaction.
    Begin,
    /// Unpin every token that is still pinned to the model.
    ClearPins { model_id: String },
    DeleteSecrets { model_id: String },
    DeleteRow { model_id: String },
    Commit,
    /// Remove the model's directory, where there is one.
    RemoveFiles { dir: String },
}

/// The model of a step.
pub enum DeleteStepView {
    RevokeToken { id: Seq<char> },
    StopBackend { model_id: Seq<char>, backend_type: Seq<char> },
    CleanUp { model_id: Seq<char> },
    Begin,
    ClearPins { model_id: Seq<char> },
    DeleteSecrets { model_id: Seq<char> },
    DeleteRow { model_id: Seq<char> },
    Commit,
    RemoveFiles { dir: Seq<char> },
}

impl View for DeleteStep {
    type V = DeleteStepView;

    open spec fn view(&self) -> DeleteStepView {
        match self {
            DeleteStep::RevokeToken { id } => DeleteStepView::RevokeToken { id: id@ },
            DeleteStep::StopBackend { model_id, backend_type } => DeleteStepView::StopBackend {
                model_id: model_id@,
                backend_type: backend_type@,
            },
            DeleteStep::CleanUp { model_id } => DeleteStepView::CleanUp { model_id: model_id@ },
            DeleteStep::Begin => DeleteStepView::Begin,
            DeleteStep::ClearPins { model_id } => DeleteStepView::ClearPins { model_id: model_id@ },
            DeleteStep::DeleteSecrets { model_id } => DeleteStepView::DeleteSecrets {
                model_id: model_id@,
            },
            DeleteStep::DeleteRow { model_id } => DeleteStepView::DeleteRow { model_id: model_id@ },
            DeleteStep::Commit => DeleteStepView::Commit,
            DeleteStep::RemoveFiles { dir } => DeleteStepView::RemoveFiles { dir: dir@ },
        }
    }
}

/// The models of a list of steps.
pub open spec fn step_views(s: Seq<DeleteStep>) -> Seq<DeleteStepView> {
    s.map_values(|x: DeleteStep| x@)
}

/// A blocking token as it is reported.
pub open spec fn blocker_json(b: BlockingToken) -> JsonView {
    JsonView::Object(
        no_fields().push(("id"@, JsonView::Text(b.id@))).push(
            ("name"@, JsonView::Text(b.name@)),
        ).push(("user_email"@, opt_text(opt_view(b.user_email)))),
    )
}

/// What is answered where active tokens stand in the way of a deletion.
pub open spec fn blocked_reply(blockers: Seq<BlockingToken>) -> ReplyView {
    ReplyView {
        status: 409,
        body: JsonView::Object(
            no_fields().push(
                (
                    "error"@,
                    JsonView::Text(
                        "Model is in use by "@ + dec(blockers.len())
                            + " active token(s). Revoke them or retry with override=true."@,
                    ),
                ),
            ).push(
                (
                    "blocking_tokens"@,
                    JsonView::Array(blockers.map_values(|b: BlockingToken| blocker_json(b))),
                ),
            ),
        ),
    }
}

/// The steps that delete a model: its blocking tokens are revoked, its backend is stopped, its
/// rows go in one transaction, and its files go last.
pub open spec fn delete_steps(
    m: DeletableModel,
    blockers: Seq<BlockingToken>,
    model_path: Seq<char>,
) -> Seq<DeleteStepView> {
    let revoked = blockers.map_values(
        |b: BlockingToken| DeleteStepView::RevokeToken { id: b.id@ },
    );
    let stopped = if m.loaded {
        revoked.push(
            DeleteStepView::StopBackend { model_id: m.id@, backend_type: m.backend_type@ },
        ).push(DeleteStepView::CleanUp { model_id: m.id@ })
    } else {
        revoked
    };
    stopped.push(DeleteStepView::Begin).push(DeleteStepView::ClearPins { model_id: m.id@ }).push(
        DeleteStepView::DeleteSecrets { model_id: m.id@ },
    ).push(DeleteStepView::DeleteRow { model_id: m.id@ }).push(DeleteStepView::Commit).push(
        DeleteStepView::RemoveFiles { dir: model_path + "/"@ + repo_dir(m.hf_repo@) },
    )
}

/// Reports the tokens that stand in the way.
fn make_blocked_reply(blockers: &Vec<BlockingToken>) -> (r: Reply)
    ensures
        r@ == blocked_reply(blockers@),
{
    let mut items: Vec<Json> = Vec::new();
    let mut i: usize = 0;
    while i < blockers.len()
        invariant
            i == items@.len(),
            i <= blockers@.len(),
            forall|j: int| 0 <= j < i ==> items@[j]@ == blocker_json(blockers@[j]),
        decreases blockers@.len() - i,
    {
        let b = &blockers[i];
        items.push(
            ObjectBuilder::new().with("id", Json::str(&b.id)).with(
                "name",
                Json::str(&b.name),
            ).with("user_email", make_opt_text(&b.user_email)).done(),
        );
        i += 1;
    }
    assert(json_views(items@) =~= blockers@.map_values(|b: BlockingToken| blocker_json(b)));
    let message = "Model is in use by ".to_owned().concat(
        &dec_text(blockers.len() as u128),
    ).concat(" active token(s). Revoke them or retry with override=true.");
    Reply {
        status: 409,
        body: ObjectBuilder::new().with("error", Json::Text(message)).with(
            "blocking_tokens",
            Json::array(items),
        ).done(),
    }
}

/// What to do to delete a model. `model` is its row, `blockers` are the active tokens that are
/// pinned to it; `override_` has them revoked. Where the deletion is refused nothing is to be done.
pub fn delete_model(
    model: Option<&DeletableModel>,
    blockers: &Vec<BlockingToken>,
    override_: bool,
    model_path: &str,
) -> (r: Result<Vec<DeleteStep>, Reply>)
    ensures
        match model {
            None => r is Err && r->Err_0@ == error_reply(404, "Model not found"@),
            Some(m) => if blockers@.len() > 0 && !override_ {
                r is Err && r->Err_0@ == blocked_reply(blockers@)
            } else {
                r is Ok && step_views(r->Ok_0@) == delete_steps(*m, blockers@, model_path@)
            },
        },
{
    let m = match model {
        None => {
            return Err(Reply::error(404, "Model not found"));
        },
        Some(m) => m,
    };
    if blockers.len() > 0 && !override_ {
        return Err(make_blocked_reply(blockers));
    }
    let mut out: Vec<DeleteStep> = Vec::new();
    let mut i: usize = 0;
    while i < blockers.len()
        invariant
            i == out@.len(),
            i <= blockers@.len(),
            forall|j: int|
                0 <= j < i ==> (#[trigger] out@[j])@ == (DeleteStepView::RevokeToken {
                    id: blockers@[j].id@,
                }),
        decreases blockers@.len() - i,
    {
        out.push(DeleteStep::RevokeToken { id: blockers[i].id.clone() });
        i += 1;
    }
    assert(step_views(out@) =~= blockers@.map_values(
        |b: BlockingToken| DeleteStepView::RevokeToken { id: b.id@ },
    ));
    if m.loaded {
        out.push(
            DeleteStep::StopBackend {
                model_id: m.id.clone(),
                backend_type: m.backend_type.clone(),
            },
        );
        out.push(DeleteStep::CleanUp { model_id: m.id.clone() });
    }
    out.push(DeleteStep::Begin);
    out.push(DeleteStep::ClearPins { model_id: m.id.clone() });
    out.push(DeleteStep::DeleteSecrets { model_id: m.id.clone() });
    out.push(DeleteStep::DeleteRow { model_id: m.id.clone() });
    out.push(DeleteStep::Commit);
    let dir = model_path.to_owned().concat("/").concat(&safe_repo(&m.hf_repo));
    out.push(DeleteStep::RemoveFiles { dir });
    assert(step_views(out@) =~= delete_steps(*m, blockers@, model_path@));
    Ok(out)
}

/// What is answered once a model is gone.
pub fn deleted_reply(revoked_tokens: u64) -> (r: Reply)
    ensures
        r@ == (ReplyView {
            status: 200,
            body: JsonView::Object(
                no_fields().push(("status"@, JsonView::Text("deleted"@))).push(
                    ("revoked_tokens"@, JsonView::Number(dec(revoked_tokens as nat))),
                ),
            ),
        }),
{
    Reply {
        status: 200,
        body: ObjectBuilder::new().with("status", Json::str("deleted")).with(
            "revoked_tokens",
            Json::unsigned(revoked_tokens as u128),
        ).done(),
    }
}

/// A step that removes a model's files.
pub open spec fn removes_files(s: DeleteStepView) -> bool {
    s is RemoveFiles
}

/// Files are removed once, as the last step, and right after the deletion of the rows was
/// committed: whatever step fails, no row is left without its files.
pub proof fn law_files_go_after_the_commit(
    m: DeletableModel,
    blockers: Seq<BlockingToken>,
    model_path: Seq<char>,
    i: int,
)
    requires
        0 <= i < delete_steps(m, blockers, model_path).len(),
    ensures
        ({
            let s = delete_steps(m, blockers, model_path);
            &&& removes_files(s[i]) <==> i == s.len() - 1
            &&& removes_files(s[i]) ==> i > 0 && s[i - 1] is Commit
        }),
{
}

/// The rows change only between the opening of a transaction and its commit.
pub proof fn law_rows_go_in_one_transaction(
    m: DeletableModel,
    blockers: Seq<BlockingToken>,
    model_path: Seq<char>,
    i: int,
)
    requires
        0 <= i < delete_steps(m, blockers, model_path).len(),
    ensures
        ({
            let s = delete_steps(m, blockers, model_path);
            let row_change = s[i] is ClearPins || s[i] is DeleteSecrets || s[i] is DeleteRow;
            &&& s[s.len() - 6] is Begin
            &&& s[s.len() - 2] is Commit
            &&& row_change <==> s.len() - 6 < i < s.len() - 2
            &&& s[i] is Begin ==> i == s.len() - 6
            &&& s[i] is Commit ==> i == s.len() - 2
        }),
{
}

/// Whether a setting can be changed.
pub open spec fn is_setting(key: Seq<char>) -> bool {
    ||| key == "fairness_base_priority"@
    ||| key == "fairness_wait_weight"@
    ||| key == "fairness_usage_weight"@
    ||| key == "fairness_usage_scale"@
    ||| key == "fairness_window_minutes"@
    ||| key == "queue_timeout_secs"@
}

/// The text to store for a setting, or what is answered where it is refused.
pub fn check_setting(key: &str, value: &Json) -> (r: Result<String, Reply>)
    ensures
        if !is_setting(key@) {
            r is Err && r->Err_0@ == error_reply(400, "Unknown setting: "@ + key@)
        } else {
            match value@ {
                JsonView::Number(n) => r is Ok && r->Ok_0@ == n,
                JsonView::Text(s) => r is Ok && r->Ok_0@ == s,
                _ => r is Err && r->Err_0@ == error_reply(
                    400,
                    "Invalid value for "@ + key@ + ": expected number or string"@,
                ),
            }
        },
{
    if !(str_eq(key, "fairness_base_priority") || str_eq(key, "fairness_wait_weight") || str_eq(
        key,
        "fairness_usage_weight",
    ) || str_eq(key, "fairness_usage_scale") || str_eq(key, "fairness_window_minutes") || str_eq(
        key,
        "queue_timeout_secs",
    )) {
        return Err(Reply::error(400, &"Unknown setting: ".to_owned().concat(key)));
    }
    match value {
        Json::Number(n) => Ok(n.clone()),
        Json::Text(s) => Ok(s.clone()),
        _ => Err(
            Reply::error(
                400,
                &"Invalid value for ".to_owned().concat(key).concat(
                    ": expected number or string",
                ),
            ),
        ),
    }
}

/// The disk as the system overview shows it; `reason` says why there are no figures.
pub open spec fn disk_json(model_path: Seq<char>, disk: Result<DiskUsage, String>) -> JsonView {
    let path = no_fields().push(("model_path"@, JsonView::Text(model_path)));
    JsonView::Object(
        match disk {
            Ok(d) => path.push(("total_bytes"@, JsonView::Number(dec(d.total_bytes as nat)))).push(
                ("used_bytes"@, JsonView::Number(dec(d.used_bytes as nat))),
            ).push(("free_bytes"@, JsonView::Number(dec(d.free_bytes as nat)))),
            Err(reason) => path.push(("error"@, JsonView::Text(reason@))),
        },
    )
}

/// The system overview, from its parts.
pub open spec fn overview_json(
    disk: JsonView,
    containers: JsonView,
    queues: JsonView,
    gates: JsonView,
    gpu: JsonView,
    gpu_memory: JsonView,
    available_backends: JsonView,
) -> JsonView {
    JsonView::Object(
        no_fields().push(("disk"@, disk)).push(("containers"@, containers)).push(
            ("queues"@, queues),
        ).push(("gates"@, gates)).push(("gpu"@, gpu)).push(("gpu_memory"@, gpu_memory)).push(
            ("available_backends"@, available_backends),
        ),
    )
}

/// The system overview, from its parts.
pub fn system_status(
    disk: Json,
    containers: Json,
    queues: Json,
    gates: Json,
    gpu: Json,
    gpu_memory: Json,
    available_backends: Json,
) -> (r: Json)
    ensures
        r@ == overview_json(
            disk@,
            containers@,
            queues@,
            gates@,
            gpu@,
            gpu_memory@,
            available_backends@,
        ),
{
    ObjectBuilder::new().with("disk", disk).with("containers", containers).with(
        "queues",
        queues,
    ).with("gates", gates).with("gpu", gpu).with("gpu_memory", gpu_memory).with(
        "available_backends",
        available_backends,
    ).done()
}

/// The disk as the system overview shows it.
pub fn disk_status(model_path: &str, disk: &Result<DiskUsage, String>) -> (r: Json)
    ensures
        r@ == disk_json(model_path@, *disk),
{
    let b = ObjectBuilder::new().with("model_path", Json::str(model_path));
    match disk {
        Ok(d) => b.with("total_bytes", Json::unsigned(d.total_bytes as u128)).with(
            "used_bytes",
            Json::unsigned(d.used_bytes as u128),
        ).with("free_bytes", Json::unsigned(d.free_bytes as u128)).done(),
        Err(reason) => b.with("error", Json::str(reason)).done(),
    }
}

/// A GPU as the system overview shows it.
pub open spec fn gpu_json(g: GpuMemoryInfo) -> JsonView {
    JsonView::Object(
        no_fields().push(("gpu_type"@, JsonView::Text(g.gpu_type@))).push(
            ("device_index"@, JsonView::Number(dec(g.device_index as nat))),
        ).push(("total_mb"@, JsonView::Number(dec(g.total_mb as nat)))).push(
            ("used_mb"@, JsonView::Number(dec(g.used_mb as nat))),
        ).push(("free_mb"@, JsonView::Number(dec(g.free_mb as nat)))).push(
            (
                "utilization_percent"@,
                match g.utilization_percent {
                    Some(p) => JsonView::Number(dec(p as nat)),
                    None => JsonView::Null,
                },
            ),
        ),
    )
}

/// The GPUs as the system overview shows them.
pub fn gpu_status(gpus: &Vec<GpuMemoryInfo>) -> (r: Json)
    ensures
        r@ == JsonView::Array(gpus@.map_values(|g: GpuMemoryInfo| gpu_json(g))),
{
    let mut items: Vec<Json> = Vec::new();
    let mut i: usize = 0;
    while i < gpus.len()
        invariant
            i == items@.len(),
            i <= gpus@.len(),
            forall|j: int| 0 <= j < i ==> items@[j]@ == gpu_json(gpus@[j]),
        decreases gpus@.len() - i,
    {
        let g = &gpus[i];
        let percent = match g.utilization_percent {
            Some(p) => Json::unsigned(p as u128),
            None => Json::Null,
        };
        items.push(
            ObjectBuilder::new().with("gpu_type", Json::str(&g.gpu_type)).with(
                "device_index",
                Json::unsigned(g.device_index as u128),
            ).with("total_mb", Json::unsigned(g.total_mb as u128)).with(
                "used_mb",
                Json::unsigned(g.used_mb as u128),
            ).with("free_mb", Json::unsigned(g.free_mb as u128)).with(
                "utilization_percent",
                percent,
            ).done(),
        );
        i += 1;
    }
    assert(json_views(items@) =~= gpus@.map_values(|g: GpuMemoryInfo| gpu_json(g)));
    Json::array(items)
}

/// A container as Docker lists it.
#[derive(Debug)]
pub struct ContainerListing {
    pub id: Option<String>,
    pub names: Option<Vec<String>>,
    pub state: Option<ContainerState>,
    pub status: Option<String>,
    pub labels: Option<Vec<(String, String)>>,
}

/// A container's entry in the list of containers.
pub open spec fn container_json(c: ContainerListing) -> JsonView {
    JsonView::Object(
        no_fields().push(("id"@, opt_text(opt_view(c.id)))).push(
            (
                "names"@,
                match c.names {
                    Some(n) => JsonView::Array(text_views(n@)),
                    None => JsonView::Null,
                },
            ),
        ).push(
            (
                "state"@,
                match c.state {
                    Some(s) => JsonView::Text(state_name(s)),
                    None => JsonView::Null,
                },
            ),
        ).push(("status"@, opt_text(opt_view(c.status)))).push(
            (
                "labels"@,
                match c.labels {
                    Some(l) => JsonView::Object(
                        l@.map_values(|p: (String, String)| (p.0@, JsonView::Text(p.1@))),
                    ),
                    None => JsonView::Null,
                },
            ),
        ),
    )
}

/// Labels as an object.
fn make_labels(l: &Vec<(String, String)>) -> (r: Json)
    ensures
        r@ == JsonView::Object(l@.map_values(|p: (String, String)| (p.0@, JsonView::Text(p.1@)))),
{
    let mut b = ObjectBuilder::new();
    let mut i: usize = 0;
    let ghost v = l@.map_values(|p: (String, String)| (p.0@, JsonView::Text(p.1@)));
    assert(v.take(0) =~= no_fields());
    while i < l.len()
        invariant
            i <= l@.len(),
            v == l@.map_values(|p: (String, String)| (p.0@, JsonView::Text(p.1@))),
            b@ == v.take(i as int),
        decreases l@.len() - i,
    {
        b = b.with(&l[i].0, Json::str(&l[i].1));
        assert(v.take(i as int).push(v[i as int]) =~= v.take(i + 1));
        i += 1;
    }
    assert(v.take(i as int) =~= v);
    b.done()
}

/// The body that lists the containers.
pub fn list_containers(containers: &Vec<ContainerListing>) -> (r: Json)
    ensures
        r@ == JsonView::Object(
            no_fields().push(
                (
                    "containers"@,
                    JsonView::Array(containers@.map_values(|c: ContainerListing| container_json(c))),
                ),
            ),
        ),
{
    let mut items: Vec<Json> = Vec::new();
    let mut i: usize = 0;
    while i < containers.len()
        invariant
            i == items@.len(),
            i <= containers@.len(),
            forall|j: int| 0 <= j < i ==> items@[j]@ == container_json(containers@[j]),
        decreases containers@.len() - i,
    {
        let c = &containers[i];
        let names = match &c.names {
            Some(n) => Json::strings(n),
            None => Json::Null,
        };
        let state = match c.state {
            Some(s) => Json::str(s.name()),
            None => Json::Null,
        };
        let labels = match &c.labels {
            Some(l) => make_labels(l),
            None => Json::Null,
        };
        items.push(
            ObjectBuilder::new().with("id", make_opt_text(&c.id)).with("names", names).with(
                "state",
                state,
            ).with("status", make_opt_text(&c.status)).with("labels", labels).done(),
        );
        i += 1;
    }
    assert(json_views(items@) =~= containers@.map_values(|c: ContainerListing| container_json(c)));
    ObjectBuilder::new().with("containers", Json::array(items)).done()
}

/// What is answered once a backend was started.
pub fn started_reply(container: &str, url: &str) -> (r: Reply)
    ensures
        r@ == (ReplyView {
            status: 200,
            body: JsonView::Object(
                no_fields().push(("container"@, JsonView::Text(container@))).push(
                    ("url"@, JsonView::Text(url@)),
                ),
            ),
        }),
{
    Reply {
        status: 200,
        body: ObjectBuilder::new().with("container", Json::str(container)).with(
            "url",
            Json::str(url),
        ).done(),
    }
}

/// A user's requests and tokens.
#[derive(Debug, Clone, Copy)]
pub struct UsageTotals {
    pub requests: i64,
    pub tokens: i64,
}

/// A user's entry in the list of users.
pub open spec fn user_json(u: User, t: UsageTotals) -> JsonView {
    JsonView::Object(
        user_fields(u).push(
            (
                "usage_summary"@,
                JsonView::Object(
                    no_fields().push(
                        ("total_requests"@, JsonView::Number(dec_int(t.requests as int))),
                    ).push(("total_tokens"@, JsonView::Number(dec_int(t.tokens as int)))),
                ),
            ),
        ),
    )
}

/// The body that lists the users with their usage.
pub fn list_users(users: &Vec<(User, UsageTotals)>) -> (r: Json)
    ensures
        r@ == JsonView::Object(
            no_fields().push(
                (
                    "users"@,
                    JsonView::Array(
                        users@.map_values(|p: (User, UsageTotals)| user_json(p.0, p.1)),
                    ),
                ),
            ),
        ),
{
    let mut items: Vec<Json> = Vec::new();
    let mut i: usize = 0;
    while i < users.len()
        invariant
            i == items@.len(),
            i <= users@.len(),
            forall|j: int| 0 <= j < i ==> items@[j]@ == user_json(users@[j].0, users@[j].1),
        decreases users@.len() - i,
    {
        let u = &users[i].0;
        let t = &users[i].1;
        let usage = ObjectBuilder::new().with("total_requests", Json::signed(t.requests)).with(
            "total_tokens",
            Json::signed(t.tokens),
        ).done();
        items.push(u.to_fields().with("usage_summary", usage).done());
        i += 1;
    }
    assert(json_views(items@) =~= users@.map_values(
        |p: (User, UsageTotals)| user_json(p.0, p.1),
    ));
    ObjectBuilder::new().with("users", Json::array(items)).done()
}

/// Requests and tokens of one user.
#[derive(Debug)]
pub struct AdminUsageByUser {
    pub user_label: String,
    pub requests: i64,
    pub input_tokens: i64,
    pub output_tokens: i64,
}

/// The figures of a usage record, onto `fields`.
pub open spec fn usage_fields(
    fields: Seq<(Seq<char>, JsonView)>,
    u: AdminUsageByUser,
) -> Seq<(Seq<char>, JsonView)> {
    fields.push(("user_label"@, JsonView::Text(u.user_label@))).push(
        ("requests"@, JsonView::Number(dec_int(u.requests as int))),
    ).push(("input_tokens"@, JsonView::Number(dec_int(u.input_tokens as int)))).push(
        ("output_tokens"@, JsonView::Number(dec_int(u.output_tokens as int))),
    )
}

/// Adds the figures of a usage record.
fn with_usage(b: ObjectBuilder, u: &AdminUsageByUser) -> (r: ObjectBuilder)
    ensures
        r@ == usage_fields(b@, *u),
{
    b.with("user_label", Json::str(&u.user_label)).with(
        "requests",
        Json::signed(u.requests),
    ).with("input_tokens", Json::signed(u.input_tokens)).with(
        "output_tokens",
        Json::signed(u.output_tokens),
    )
}

/// The period that is reported: a day where none is asked for.
pub fn report_period(period: Option<String>) -> (r: String)
    ensures
        r@ == (match period {
            Some(s) => s@,
            None => "day"@,
        }),
{
    text_or(period, "day")
}

/// A usage report: the totals of a period, and the usage of each user.
pub open spec fn usage_json(
    period: Seq<char>,
    requests: i64,
    input_tokens: i64,
    output_tokens: i64,
    by_user: Seq<AdminUsageByUser>,
) -> JsonView {
    let summary = no_fields().push(
        ("total_requests"@, JsonView::Number(dec_int(requests as int))),
    ).push(("total_input_tokens"@, JsonView::Number(dec_int(input_tokens as int)))).push(
        ("total_output_tokens"@, JsonView::Number(dec_int(output_tokens as int))),
    ).push(("period"@, JsonView::Text(period)));
    JsonView::Object(
        no_fields().push(("summary"@, JsonView::Object(summary))).push(
            (
                "by_user"@,
                JsonView::Array(
                    by_user.map_values(
                        |u: AdminUsageByUser| JsonView::Object(usage_fields(no_fields(), u)),
                    ),
                ),
            ),
        ),
    )
}

/// The usage report: requests, input tokens and output tokens of a period, and each user's share.
pub fn admin_usage(
    period: &str,
    requests: i64,
    input_tokens: i64,
    output_tokens: i64,
    by_user: &Vec<AdminUsageByUser>,
) -> (r: Json)
    ensures
        r@ == usage_json(period@, requests, input_tokens, output_tokens, by_user@),
{
    let mut items: Vec<Json> = Vec::new();
    let mut i: usize = 0;
    while i < by_user.len()
        invariant
            i == items@.len(),
            i <= by_user@.len(),
            forall|j: int|
                0 <= j < i ==> items@[j]@ == JsonView::Object(
                    usage_fields(no_fields(), by_user@[j]),
                ),
        decreases by_user@.len() - i,
    {
        items.push(with_usage(ObjectBuilder::new(), &by_user[i]).done());
        i += 1;
    }
    assert(json_views(items@) =~= by_user@.map_values(
        |u: AdminUsageByUser| JsonView::Object(usage_fields(no_fields(), u)),
    ));
    let summary = ObjectBuilder::new().with("total_requests", Json::signed(requests)).with(
        "total_input_tokens",
        Json::signed(input_tokens),
    ).with("total_output_tokens", Json::signed(output_tokens)).with(
        "period",
        Json::str(period),
    ).done();
    ObjectBuilder::new().with("summary", summary).with("by_user", Json::array(items)).done()
}

/// An entry of the usage over time.
pub open spec fn timeline_json(p: (String, AdminUsageByUser)) -> JsonView {
    JsonView::Object(
        usage_fields(no_fields().push(("timestamp"@, JsonView::Text(p.0@))), p.1),
    )
}

/// The usage over time: a timestamp and a user's figures for each entry.
pub fn admin_usage_timeline(rows: &Vec<(String, AdminUsageByUser)>) -> (r: Json)
    ensures
        r@ == JsonView::Object(
            no_fields().push(
                (
                    "timeline"@,
                    JsonView::Array(
                        rows@.map_values(|p: (String, AdminUsageByUser)| timeline_json(p)),
                    ),
                ),
            ),
        ),
{
    let mut items: Vec<Json> = Vec::new();
    let mut i: usize = 0;
    while i < rows.len()
        invariant
            i == items@.len(),
            i <= rows@.len(),
            forall|j: int| 0 <= j < i ==> items@[j]@ == timeline_json(rows@[j]),
        decreases rows@.len() - i,
    {
        let b = ObjectBuilder::new().with("timestamp", Json::str(&rows[i].0));
        items.push(with_usage(b, &rows[i].1).done());
        i += 1;
    }
    assert(json_views(items@) =~= rows@.map_values(
        |p: (String, AdminUsageByUser)| timeline_json(p),
    ));
    ObjectBuilder::new().with("timeline", Json::array(items)).done()
}

/// A recorded crash.
#[derive(Debug)]
pub struct CrashHistoryRow {
    pub occurred_at: String,
    pub container_id: Option<String>,
    pub exit_code: Option<i64>,
    pub oom_killed: i64,
    pub signal: Option<String>,
    /// Where the end of the log was stored.
    pub log_path: Option<String>,
}

/// A crash's entry in the history.
pub open spec fn crash_json(c: CrashHistoryRow) -> JsonView {
    JsonView::Object(
        no_fields().push(("occurred_at"@, JsonView::Text(c.occurred_at@))).push(
            ("container_id"@, opt_text(opt_view(c.container_id))),
        ).push(("exit_code"@, opt_int(c.exit_code))).push(
            ("oom_killed"@, JsonView::Number(dec_int(c.oom_killed as int)))).push(
            ("signal"@, opt_text(opt_view(c.signal))),
        ).push(("log_path_present"@, JsonView::Bool(c.log_path is Some))),
    )
}

/// The body that lists a model's crashes. It says whether a log was stored, not where.
pub fn crash_history(rows: &Vec<CrashHistoryRow>) -> (r: Json)
    ensures
        r@ == JsonView::Object(
            no_fields().push(
                (
                    "history"@,
                    JsonView::Array(rows@.map_values(|c: CrashHistoryRow| crash_json(c))),
                ),
            ),
        ),
{
    let mut items: Vec<Json> = Vec::new();
    let mut i: usize = 0;
    while i < rows.len()
        invariant
            i == items@.len(),
            i <= rows@.len(),
            forall|j: int| 0 <= j < i ==> items@[j]@ == crash_json(rows@[j]),
        decreases rows@.len() - i,
    {
        let c = &rows[i];
        items.push(
            ObjectBuilder::new().with("occurred_at", Json::str(&c.occurred_at)).with(
                "container_id",
                make_opt_text(&c.container_id),
            ).with("exit_code", make_opt_int(c.exit_code)).with("oom_killed", Json::signed(c.oom_killed)).with(
                "signal",
                make_opt_text(&c.signal),
            ).with("log_path_present", Json::Bool(c.log_path.is_some())).done(),
        );
        i += 1;
    }
    assert(json_views(items@) =~= rows@.map_values(|c: CrashHistoryRow| crash_json(c)));
    ObjectBuilder::new().with("history", Json::array(items)).done()
}

/// The file that holds a crash's log. `row` is what the crash's row says of it; `None` where there
/// is no such row.
pub fn crash_log_path(row: Option<Option<String>>) -> (r: Result<String, Reply>)
    ensures
        match row {
            None => r is Err && r->Err_0@ == error_reply(404, "crash log not found"@),
            Some(None) => r is Err && r->Err_0@ == error_reply(404, "log was not captured"@),
            Some(Some(p)) => r is Ok && r->Ok_0@ == p@,
        },
{
    match row {
        None => Err(Reply::error(404, "crash log not found")),
        Some(None) => Err(Reply::error(404, "log was not captured")),
        Some(Some(p)) => Ok(p),
    }
}

/// What is answered for a crash's log whose file is gone.
pub fn crash_log_gone() -> (r: Reply)
    ensures
        r@ == error_reply(404, "log file no longer available"@),
{
    Reply::error(404, "log file no longer available")
}

} // verus!
