//! What the administrators' API says, and what its changes do.
use vstd::prelude::*;
use crate::api::admin::{
    assignment_views, blocked_reply, blocker_json, category_assignments, container_json, crash_json,
    delete_steps, disk_json, gpu_json, idp_assignments, is_setting, overview_json, set_list,
    timeline_json, update_sql, updates, usage_fields, usage_json, user_json, AdminUsageByUser,
    AssignmentView, BlockingToken, ColumnValueView, ContainerListing, CrashHistoryRow,
    DeletableModel, DeleteStepView, RowUpdate, UpdateCategoryRequest, UpdateIdpRequest, UsageTotals,
};
use crate::api::checks::{
    checks_of_category, checks_of_idp, checks_of_repository, refusal_of, CheckView, Limit,
};
use crate::api::common::state_name;
use crate::api::downloads::{repo_dir, DiskUsage};
use crate::api::event_laws::number_under;
use crate::db::models::{
    category_json, idp_json, model_json, IdpConfigPublic, Model, ModelCategory, User,
};
use crate::json::{json_read, lemma_lookup_push, no_fields, JsonView};
use crate::metrics::GpuMemoryInfo;
use crate::reply::{error_reply, Reply};
use crate::text::{has_prefix, has_suffix};
use crate::text_laws::{law_decimal_text, law_signed_text};

verus! {

/// Whether an optional text stands under a key: as a text, or as null where there is none.
pub open spec fn holds_opt_text(j: JsonView, key: Seq<char>, t: Option<String>) -> bool {
    match t {
        Some(s) => j.text_field(key) == Some(s@),
        None => j.field(key) == Some(JsonView::Null),
    }
}

/// Whether an optional number stands under a key: as a number, or as null where there is none.
pub open spec fn holds_opt_number(j: JsonView, key: Seq<char>, n: Option<i64>) -> bool {
    match n {
        Some(k) => number_under(j, key) == Some(k as int),
        None => j.field(key) == Some(JsonView::Null),
    }
}

proof fn lemma_number(n: nat)
    ensures
        crate::text_laws::signed_value(crate::text::dec(n)) == n,
{
    law_decimal_text(n);
    assert('0' <= crate::text::dec(n)[0]);
}

proof fn lemma_opt(n: Option<i64>)
    ensures
        n is Some ==> crate::text_laws::signed_value(crate::text::dec_int(n->0 as int)) == n->0,
{
    if let Some(k) = n {
        law_signed_text(k as int);
    }
}

proof fn lemma_keys_of_model_entry()
    ensures
        "id"@.len() == 2,
        "hf_repo"@.len() == 7,
        "filename"@.len() == 8,
        "size_bytes"@.len() == 10,
        "category_id"@.len() == 11,
        "loaded"@.len() == 6,
        "backend_port"@.len() == 12,
        "backend_type"@.len() == 12,
        "last_used_at"@.len() == 12,
        "created_at"@.len() == 10,
        "context_length"@.len() == 14,
        "n_layers"@.len() == 8,
        "n_heads"@.len() == 7,
        "n_kv_heads"@.len() == 10,
        "embedding_length"@.len() == 16,
        "key_length"@.len() == 10,
        "value_length"@.len() == 12,
        "sliding_window"@.len() == 14,
        "kv_bytes_per_token_global"@.len() == 25,
        "kv_bytes_per_token_swa"@.len() == 22,
        "mmproj_filename"@.len() == 15,
        "runtime_overrides"@.len() == 17,
        "backend_port"@ != "backend_type"@,
        "backend_port"@ != "last_used_at"@,
        "backend_type"@ != "last_used_at"@,
        "size_bytes"@ != "created_at"@,
        "filename"@ != "n_layers"@,
        "hf_repo"@ != "n_heads"@,
        "size_bytes"@ != "n_kv_heads"@,
        "created_at"@ != "n_kv_heads"@,
        "size_bytes"@ != "key_length"@,
        "created_at"@ != "key_length"@,
        "n_kv_heads"@ != "key_length"@,
        "backend_port"@ != "value_length"@,
        "backend_type"@ != "value_length"@,
        "last_used_at"@ != "value_length"@,
        "context_length"@ != "sliding_window"@,
{
    reveal_strlit("id");
    reveal_strlit("hf_repo");
    reveal_strlit("filename");
    reveal_strlit("size_bytes");
    reveal_strlit("category_id");
    reveal_strlit("loaded");
    reveal_strlit("backend_port");
    reveal_strlit("backend_type");
    reveal_strlit("last_used_at");
    reveal_strlit("created_at");
    reveal_strlit("context_length");
    reveal_strlit("n_layers");
    reveal_strlit("n_heads");
    reveal_strlit("n_kv_heads");
    reveal_strlit("embedding_length");
    reveal_strlit("key_length");
    reveal_strlit("value_length");
    reveal_strlit("sliding_window");
    reveal_strlit("kv_bytes_per_token_global");
    reveal_strlit("kv_bytes_per_token_swa");
    reveal_strlit("mmproj_filename");
    reveal_strlit("runtime_overrides");
    assert("backend_port"@[0] == 'b');
    assert("backend_port"@[8] == 'p');
    assert("backend_type"@[0] == 'b');
    assert("backend_type"@[8] == 't');
    assert("context_length"@[0] == 'c');
    assert("created_at"@[0] == 'c');
    assert("filename"@[0] == 'f');
    assert("hf_repo"@[0] == 'h');
    assert("key_length"@[0] == 'k');
    assert("last_used_at"@[0] == 'l');
    assert("n_heads"@[0] == 'n');
    assert("n_kv_heads"@[0] == 'n');
    assert("n_layers"@[0] == 'n');
    assert("size_bytes"@[0] == 's');
    assert("sliding_window"@[0] == 's');
    assert("value_length"@[0] == 'v');
}

/// A model is shown with each of its values under the value's own name; its overrides as the value
/// that their text is read as.
pub proof fn law_model_entry(m: Model)
    ensures
        ({
            let j = model_json(m);
            &&& j.text_field("id"@) == Some(m.id@)
            &&& j.text_field("hf_repo"@) == Some(m.hf_repo@)
            &&& holds_opt_text(j, "filename"@, m.filename)
            &&& number_under(j, "size_bytes"@) == Some(m.size_bytes as int)
            &&& holds_opt_text(j, "category_id"@, m.category_id)
            &&& j.field("loaded"@) == Some(JsonView::Bool(m.loaded))
            &&& match m.backend_port {
                Some(p) => number_under(j, "backend_port"@) == Some(p as int),
                None => j.field("backend_port"@) == Some(JsonView::Null),
            }
            &&& j.text_field("backend_type"@) == Some(m.backend_type@)
            &&& holds_opt_text(j, "last_used_at"@, m.last_used_at)
            &&& j.text_field("created_at"@) == Some(m.created_at@)
            &&& holds_opt_number(j, "context_length"@, m.context_length)
            &&& holds_opt_number(j, "n_layers"@, m.n_layers)
            &&& holds_opt_number(j, "n_heads"@, m.n_heads)
            &&& holds_opt_number(j, "n_kv_heads"@, m.n_kv_heads)
            &&& holds_opt_number(j, "embedding_length"@, m.embedding_length)
            &&& holds_opt_number(j, "key_length"@, m.key_length)
            &&& holds_opt_number(j, "value_length"@, m.value_length)
            &&& holds_opt_number(j, "sliding_window"@, m.sliding_window)
            &&& holds_opt_number(j, "kv_bytes_per_token_global"@, m.kv_bytes_per_token_global)
            &&& holds_opt_number(j, "kv_bytes_per_token_swa"@, m.kv_bytes_per_token_swa)
            &&& holds_opt_text(j, "mmproj_filename"@, m.mmproj_filename)
            &&& json_read(m.runtime_overrides@) is Some ==> j.field("runtime_overrides"@) == json_read(
                m.runtime_overrides@,
            )
            &&& json_read(m.runtime_overrides@) is None ==> j.field("runtime_overrides"@) == Some(
                JsonView::Object(Seq::empty()),
            )
        }),
{
    broadcast use lemma_lookup_push;

    lemma_keys_of_model_entry();
    law_signed_text(m.size_bytes as int);
    if let Some(p) = m.backend_port {
        law_signed_text(p as int);
    }
    lemma_opt(m.context_length);
    lemma_opt(m.n_layers);
    lemma_opt(m.n_heads);
    lemma_opt(m.n_kv_heads);
    lemma_opt(m.embedding_length);
    lemma_opt(m.key_length);
    lemma_opt(m.value_length);
    lemma_opt(m.sliding_window);
    lemma_opt(m.kv_bytes_per_token_global);
    lemma_opt(m.kv_bytes_per_token_swa);
}

proof fn lemma_keys_of_category_entry()
    ensures
        "id"@.len() == 2,
        "name"@.len() == 4,
        "description"@.len() == 11,
        "preferred_model_id"@.len() == 18,
        "created_at"@.len() == 10,
{
    reveal_strlit("id");
    reveal_strlit("name");
    reveal_strlit("description");
    reveal_strlit("preferred_model_id");
    reveal_strlit("created_at");
}

/// A category is shown with each of its values under the value's own name.
pub proof fn law_category_entry(c: ModelCategory)
    ensures
        ({
            let j = category_json(c);
            &&& j.text_field("id"@) == Some(c.id@)
            &&& j.text_field("name"@) == Some(c.name@)
            &&& j.text_field("description"@) == Some(c.description@)
            &&& holds_opt_text(j, "preferred_model_id"@, c.preferred_model_id)
            &&& j.text_field("created_at"@) == Some(c.created_at@)
        }),
{
    broadcast use lemma_lookup_push;

    lemma_keys_of_category_entry();
}

proof fn lemma_keys_of_provider_entry()
    ensures
        "id"@.len() == 2,
        "name"@.len() == 4,
        "issuer"@.len() == 6,
        "client_id"@.len() == 9,
        "scopes"@.len() == 6,
        "enabled"@.len() == 7,
        "created_at"@.len() == 10,
        "client_secret"@.len() == 13,
        "client_secret_enc"@.len() == 17,
        "issuer"@ != "scopes"@,
{
    reveal_strlit("id");
    reveal_strlit("name");
    reveal_strlit("issuer");
    reveal_strlit("client_id");
    reveal_strlit("scopes");
    reveal_strlit("enabled");
    reveal_strlit("created_at");
    reveal_strlit("client_secret");
    reveal_strlit("client_secret_enc");
    assert("issuer"@[0] == 'i');
    assert("scopes"@[0] == 's');
}

/// An identity provider is shown with each of its values under the value's own name, and without
/// its secret.
pub proof fn law_provider_entry(p: IdpConfigPublic)
    ensures
        ({
            let j = idp_json(p);
            &&& j.text_field("id"@) == Some(p.id@)
            &&& j.text_field("name"@) == Some(p.name@)
            &&& j.text_field("issuer"@) == Some(p.issuer@)
            &&& j.text_field("client_id"@) == Some(p.client_id@)
            &&& j.text_field("scopes"@) == Some(p.scopes@)
            &&& j.field("enabled"@) == Some(JsonView::Bool(p.enabled))
            &&& j.text_field("created_at"@) == Some(p.created_at@)
            &&& j.field("client_secret"@) is None
            &&& j.field("client_secret_enc"@) is None
        }),
{
    broadcast use lemma_lookup_push;

    lemma_keys_of_provider_entry();
}

proof fn lemma_keys_of_user_entry()
    ensures
        "id"@.len() == 2,
        "idp_id"@.len() == 6,
        "subject"@.len() == 7,
        "email"@.len() == 5,
        "display_name"@.len() == 12,
        "is_admin"@.len() == 8,
        "created_at"@.len() == 10,
        "usage_summary"@.len() == 13,
        "total_requests"@.len() == 14,
        "total_tokens"@.len() == 12,
        "display_name"@ != "total_tokens"@,
{
    reveal_strlit("id");
    reveal_strlit("idp_id");
    reveal_strlit("subject");
    reveal_strlit("email");
    reveal_strlit("display_name");
    reveal_strlit("is_admin");
    reveal_strlit("created_at");
    reveal_strlit("usage_summary");
    reveal_strlit("total_requests");
    reveal_strlit("total_tokens");
    assert("display_name"@[0] == 'd');
    assert("total_tokens"@[0] == 't');
}

/// A user is shown with each of their values under the value's own name, and with their usage.
pub proof fn law_user_entry(u: User, t: UsageTotals)
    ensures
        ({
            let j = user_json(u, t);
            &&& j.text_field("id"@) == Some(u.id@)
            &&& j.text_field("idp_id"@) == Some(u.idp_id@)
            &&& j.text_field("subject"@) == Some(u.subject@)
            &&& holds_opt_text(j, "email"@, u.email)
            &&& holds_opt_text(j, "display_name"@, u.display_name)
            &&& j.field("is_admin"@) == Some(JsonView::Bool(u.is_admin))
            &&& j.text_field("created_at"@) == Some(u.created_at@)
            &&& j.field("usage_summary"@) is Some
            &&& number_under(j.field("usage_summary"@)->0, "total_requests"@) == Some(t.requests as int)
            &&& number_under(j.field("usage_summary"@)->0, "total_tokens"@) == Some(t.tokens as int)
        }),
{
    broadcast use lemma_lookup_push;

    lemma_keys_of_user_entry();
    law_signed_text(t.requests as int);
    law_signed_text(t.tokens as int);
}

proof fn lemma_keys_of_gpu_entry()
    ensures
        "gpu_type"@.len() == 8,
        "device_index"@.len() == 12,
        "total_mb"@.len() == 8,
        "used_mb"@.len() == 7,
        "free_mb"@.len() == 7,
        "utilization_percent"@.len() == 19,
        "gpu_type"@ != "total_mb"@,
        "used_mb"@ != "free_mb"@,
{
    reveal_strlit("gpu_type");
    reveal_strlit("device_index");
    reveal_strlit("total_mb");
    reveal_strlit("used_mb");
    reveal_strlit("free_mb");
    reveal_strlit("utilization_percent");
    assert("free_mb"@[0] == 'f');
    assert("gpu_type"@[0] == 'g');
    assert("total_mb"@[0] == 't');
    assert("used_mb"@[0] == 'u');
}

/// A GPU is shown with each of its values under the value's own name.
pub proof fn law_gpu_entry(g: GpuMemoryInfo)
    ensures
        ({
            let j = gpu_json(g);
            &&& j.text_field("gpu_type"@) == Some(g.gpu_type@)
            &&& number_under(j, "device_index"@) == Some(g.device_index as int)
            &&& number_under(j, "total_mb"@) == Some(g.total_mb as int)
            &&& number_under(j, "used_mb"@) == Some(g.used_mb as int)
            &&& number_under(j, "free_mb"@) == Some(g.free_mb as int)
            &&& match g.utilization_percent {
                Some(p) => number_under(j, "utilization_percent"@) == Some(p as int),
                None => j.field("utilization_percent"@) == Some(JsonView::Null),
            }
        }),
{
    broadcast use lemma_lookup_push;

    lemma_keys_of_gpu_entry();
    lemma_number(g.device_index as nat);
    lemma_number(g.total_mb as nat);
    lemma_number(g.used_mb as nat);
    lemma_number(g.free_mb as nat);
    if let Some(p) = g.utilization_percent {
        lemma_number(p as nat);
    }
}

proof fn lemma_keys_of_container_entry()
    ensures
        "id"@.len() == 2,
        "status"@.len() == 6,
        "state"@.len() == 5,
        "names"@.len() == 5,
        "labels"@.len() == 6,
        "state"@ != "names"@,
        "status"@ != "labels"@,
{
    reveal_strlit("id");
    reveal_strlit("status");
    reveal_strlit("state");
    reveal_strlit("names");
    reveal_strlit("labels");
    assert("labels"@[0] == 'l');
    assert("names"@[0] == 'n');
    assert("state"@[0] == 's');
    assert("status"@[0] == 's');
}

/// A container is shown with each of its values under the value's own name.
pub proof fn law_container_entry(c: ContainerListing)
    ensures
        ({
            let j = container_json(c);
            &&& holds_opt_text(j, "id"@, c.id)
            &&& holds_opt_text(j, "status"@, c.status)
            &&& match c.state {
                Some(s) => j.text_field("state"@) == Some(state_name(s)),
                None => j.field("state"@) == Some(JsonView::Null),
            }
            &&& match c.names {
                Some(n) => {
                    let items = j.field("names"@)->0->Array_0;
                    &&& j.field("names"@) is Some && j.field("names"@)->0 is Array
                    &&& items.len() == n@.len()
                    &&& forall|i: int|
                        0 <= i < n@.len() ==> #[trigger] items[i] == JsonView::Text(n@[i]@)
                },
                None => j.field("names"@) == Some(JsonView::Null),
            }
            &&& match c.labels {
                Some(l) => {
                    let items = j.field("labels"@)->0->Object_0;
                    &&& j.field("labels"@) is Some && j.field("labels"@)->0 is Object
                    &&& items.len() == l@.len()
                    &&& forall|i: int|
                        0 <= i < l@.len() ==> #[trigger] items[i] == (
                            l@[i].0@,
                            JsonView::Text(l@[i].1@),
                        )
                },
                None => j.field("labels"@) == Some(JsonView::Null),
            }
        }),
{
    broadcast use lemma_lookup_push;

    lemma_keys_of_container_entry();
}

proof fn lemma_keys_of_crash_entry()
    ensures
        "occurred_at"@.len() == 11,
        "container_id"@.len() == 12,
        "exit_code"@.len() == 9,
        "oom_killed"@.len() == 10,
        "signal"@.len() == 6,
        "log_path_present"@.len() == 16,
{
    reveal_strlit("occurred_at");
    reveal_strlit("container_id");
    reveal_strlit("exit_code");
    reveal_strlit("oom_killed");
    reveal_strlit("signal");
    reveal_strlit("log_path_present");
}

/// A crash is shown with each of its values under the value's own name; of the log, only whether it
/// was kept.
pub proof fn law_crash_entry(c: CrashHistoryRow)
    ensures
        ({
            let j = crash_json(c);
            &&& j.text_field("occurred_at"@) == Some(c.occurred_at@)
            &&& holds_opt_text(j, "container_id"@, c.container_id)
            &&& holds_opt_number(j, "exit_code"@, c.exit_code)
            &&& number_under(j, "oom_killed"@) == Some(c.oom_killed as int)
            &&& holds_opt_text(j, "signal"@, c.signal)
            &&& j.field("log_path_present"@) == Some(JsonView::Bool(c.log_path is Some))
        }),
{
    broadcast use lemma_lookup_push;

    lemma_keys_of_crash_entry();
    lemma_opt(c.exit_code);
    law_signed_text(c.oom_killed as int);
}

proof fn lemma_keys_of_timeline_entry()
    ensures
        "timestamp"@.len() == 9,
        "user_label"@.len() == 10,
        "requests"@.len() == 8,
        "input_tokens"@.len() == 12,
        "output_tokens"@.len() == 13,
{
    reveal_strlit("timestamp");
    reveal_strlit("user_label");
    reveal_strlit("requests");
    reveal_strlit("input_tokens");
    reveal_strlit("output_tokens");
}

/// A point of a timeline is shown with each of its values under the value's own name.
pub proof fn law_timeline_entry(t: String, u: AdminUsageByUser)
    ensures
        ({
            let j = timeline_json((t, u));
            &&& j.text_field("timestamp"@) == Some(t@)
            &&& j.text_field("user_label"@) == Some(u.user_label@)
            &&& number_under(j, "requests"@) == Some(u.requests as int)
            &&& number_under(j, "input_tokens"@) == Some(u.input_tokens as int)
            &&& number_under(j, "output_tokens"@) == Some(u.output_tokens as int)
        }),
{
    broadcast use lemma_lookup_push;

    lemma_keys_of_timeline_entry();
    law_signed_text(u.requests as int);
    law_signed_text(u.input_tokens as int);
    law_signed_text(u.output_tokens as int);
}

proof fn lemma_keys_of_usage_of_a_user()
    ensures
        "user_label"@.len() == 10,
        "requests"@.len() == 8,
        "input_tokens"@.len() == 12,
        "output_tokens"@.len() == 13,
{
    reveal_strlit("user_label");
    reveal_strlit("requests");
    reveal_strlit("input_tokens");
    reveal_strlit("output_tokens");
}

/// The usage of a user is shown with each value under its own name.
pub proof fn law_usage_of_a_user(u: AdminUsageByUser)
    ensures
        ({
            let j = JsonView::Object(usage_fields(no_fields(), u));
            &&& j.text_field("user_label"@) == Some(u.user_label@)
            &&& number_under(j, "requests"@) == Some(u.requests as int)
            &&& number_under(j, "input_tokens"@) == Some(u.input_tokens as int)
            &&& number_under(j, "output_tokens"@) == Some(u.output_tokens as int)
        }),
{
    broadcast use lemma_lookup_push;

    lemma_keys_of_usage_of_a_user();
    law_signed_text(u.requests as int);
    law_signed_text(u.input_tokens as int);
    law_signed_text(u.output_tokens as int);
}

proof fn lemma_keys_of_usage_report()
    ensures
        "summary"@.len() == 7,
        "by_user"@.len() == 7,
        "total_requests"@.len() == 14,
        "total_input_tokens"@.len() == 18,
        "total_output_tokens"@.len() == 19,
        "period"@.len() == 6,
        "summary"@ != "by_user"@,
{
    reveal_strlit("summary");
    reveal_strlit("by_user");
    reveal_strlit("total_requests");
    reveal_strlit("total_input_tokens");
    reveal_strlit("total_output_tokens");
    reveal_strlit("period");
    assert("by_user"@[0] == 'b');
    assert("summary"@[0] == 's');
}

/// A usage report tells the totals of its period, and the usage of each user, in order.
pub proof fn law_usage_report(period: Seq<char>, requests: i64, input: i64, output: i64, by_user: Seq<AdminUsageByUser>)
    ensures
        ({
            let j = usage_json(period, requests, input, output, by_user);
            &&& j.field("summary"@) is Some
            &&& number_under(j.field("summary"@)->0, "total_requests"@) == Some(requests as int)
            &&& number_under(j.field("summary"@)->0, "total_input_tokens"@) == Some(input as int)
            &&& number_under(j.field("summary"@)->0, "total_output_tokens"@) == Some(output as int)
            &&& j.field("summary"@)->0.text_field("period"@) == Some(period)
            &&& j.field("by_user"@) is Some && j.field("by_user"@)->0 is Array
            &&& j.field("by_user"@)->0->Array_0.len() == by_user.len()
            &&& forall|i: int|
                0 <= i < by_user.len() ==> #[trigger] j.field("by_user"@)->0->Array_0[i]
                    == JsonView::Object(usage_fields(no_fields(), by_user[i]))
        }),
{
    broadcast use lemma_lookup_push;

    lemma_keys_of_usage_report();
    law_signed_text(requests as int);
    law_signed_text(input as int);
    law_signed_text(output as int);
}

proof fn lemma_keys_of_overview()
    ensures
        "disk"@.len() == 4,
        "containers"@.len() == 10,
        "queues"@.len() == 6,
        "gates"@.len() == 5,
        "gpu"@.len() == 3,
        "gpu_memory"@.len() == 10,
        "available_backends"@.len() == 18,
        "containers"@ != "gpu_memory"@,
{
    reveal_strlit("disk");
    reveal_strlit("containers");
    reveal_strlit("queues");
    reveal_strlit("gates");
    reveal_strlit("gpu");
    reveal_strlit("gpu_memory");
    reveal_strlit("available_backends");
    assert("containers"@[0] == 'c');
    assert("gpu_memory"@[0] == 'g');
}

/// The system overview has each of its parts under the part's own name.
pub proof fn law_overview(disk: JsonView, containers: JsonView, queues: JsonView, gates: JsonView, gpu: JsonView, memory: JsonView, backends: JsonView)
    ensures
        ({
            let j = overview_json(disk, containers, queues, gates, gpu, memory, backends);
            &&& j.field("disk"@) == Some(disk)
            &&& j.field("containers"@) == Some(containers)
            &&& j.field("queues"@) == Some(queues)
            &&& j.field("gates"@) == Some(gates)
            &&& j.field("gpu"@) == Some(gpu)
            &&& j.field("gpu_memory"@) == Some(memory)
            &&& j.field("available_backends"@) == Some(backends)
        }),
{
    broadcast use lemma_lookup_push;

    lemma_keys_of_overview();
}

proof fn lemma_keys_of_disk_entry()
    ensures
        "model_path"@.len() == 10,
        "total_bytes"@.len() == 11,
        "used_bytes"@.len() == 10,
        "free_bytes"@.len() == 10,
        "error"@.len() == 5,
        "model_path"@ != "used_bytes"@,
        "model_path"@ != "free_bytes"@,
        "used_bytes"@ != "free_bytes"@,
{
    reveal_strlit("model_path");
    reveal_strlit("total_bytes");
    reveal_strlit("used_bytes");
    reveal_strlit("free_bytes");
    reveal_strlit("error");
    assert("free_bytes"@[0] == 'f');
    assert("model_path"@[0] == 'm');
    assert("used_bytes"@[0] == 'u');
}

/// A disk is shown with its total, used and free bytes, each under its own name, or with the reason
/// why they are not known.
pub proof fn law_disk_entry(path: Seq<char>, d: DiskUsage, reason: String)
    ensures
        ({
            let j = disk_json(path, Ok(d));
            &&& j.text_field("model_path"@) == Some(path)
            &&& disk_json(path, Err(reason)).text_field("error"@) == Some(reason@)
            &&& disk_json(path, Err(reason)).text_field("model_path"@) == Some(path)
            &&& number_under(j, "total_bytes"@) == Some(d.total_bytes as int)
            &&& number_under(j, "used_bytes"@) == Some(d.used_bytes as int)
            &&& number_under(j, "free_bytes"@) == Some(d.free_bytes as int)
            &&& j.field("error"@) is None
        }),
{
    broadcast use lemma_lookup_push;

    lemma_keys_of_disk_entry();
    lemma_number(d.total_bytes as nat);
    lemma_number(d.used_bytes as nat);
    lemma_number(d.free_bytes as nat);
}

proof fn lemma_keys_of_blocking_token()
    ensures
        "id"@.len() == 2,
        "name"@.len() == 4,
        "user_email"@.len() == 10,
{
    reveal_strlit("id");
    reveal_strlit("name");
    reveal_strlit("user_email");
}

/// A token that keeps a model from being deleted is shown with its name and its user.
pub proof fn law_blocking_token(b: BlockingToken)
    ensures
        ({
            let j = blocker_json(b);
            &&& j.text_field("id"@) == Some(b.id@)
            &&& j.text_field("name"@) == Some(b.name@)
            &&& holds_opt_text(j, "user_email"@, b.user_email)
        }),
{
    broadcast use lemma_lookup_push;

    lemma_keys_of_blocking_token();
}

/// What a change assigns to a column.
pub open spec fn assigned(s: Seq<AssignmentView>, column: Seq<char>) -> Option<ColumnValueView>
    decreases s.len(),
{
    if s.len() == 0 {
        None
    } else if s.last().column == column {
        Some(s.last().value)
    } else {
        assigned(s.drop_last(), column)
    }
}

/// Whether an optional text is assigned to a column, or nothing where there is none.
pub open spec fn assigns_text(
    s: Seq<AssignmentView>,
    column: Seq<char>,
    t: Option<String>,
) -> bool {
    match t {
        Some(x) => assigned(s, column) == Some(ColumnValueView::Text(x@)),
        None => assigned(s, column) is None,
    }
}

broadcast proof fn lemma_assigned_push(
    s: Seq<AssignmentView>,
    a: AssignmentView,
    column: Seq<char>,
)
    ensures
        #[trigger] assigned(s.push(a), column) == (if a.column == column {
            Some(a.value)
        } else {
            assigned(s, column)
        }),
{
    assert(s.push(a).drop_last() =~= s);
}

proof fn lemma_columns()
    ensures
        "name"@.len() == 4,
        "issuer"@.len() == 6,
        "client_id"@.len() == 9,
        "client_secret_enc"@.len() == 17,
        "scopes"@.len() == 6,
        "enabled"@.len() == 7,
        "description"@.len() == 11,
        "preferred_model_id"@.len() == 18,
        "issuer"@ != "scopes"@,
{
    reveal_strlit("name");
    reveal_strlit("issuer");
    reveal_strlit("client_id");
    reveal_strlit("client_secret_enc");
    reveal_strlit("scopes");
    reveal_strlit("enabled");
    reveal_strlit("description");
    reveal_strlit("preferred_model_id");
    assert("issuer"@[0] == 'i');
    assert("scopes"@[0] == 's');
}

/// A change of an identity provider sets exactly the columns that the request gives, each to the
/// value that the request gives for it.
pub proof fn law_idp_changes_set_their_columns(q: UpdateIdpRequest)
    ensures
        ({
            let s = idp_assignments(q);
            &&& assigns_text(s, "name"@, q.name)
            &&& assigns_text(s, "issuer"@, q.issuer)
            &&& assigns_text(s, "client_id"@, q.client_id)
            &&& assigns_text(s, "client_secret_enc"@, q.client_secret_enc)
            &&& assigns_text(s, "scopes"@, q.scopes)
            &&& match q.enabled {
                Some(b) => assigned(s, "enabled"@) == Some(ColumnValueView::Flag(b)),
                None => assigned(s, "enabled"@) is None,
            }
            &&& s.len() == given(q.name is Some) + given(q.issuer is Some) + given(
                q.client_id is Some,
            ) + given(q.client_secret_enc is Some) + given(q.scopes is Some) + given(
                q.enabled is Some,
            )
        }),
{
    broadcast use lemma_assigned_push;

    lemma_columns();
}

/// One for what is given, none for what is not.
pub open spec fn given(b: bool) -> int {
    if b {
        1
    } else {
        0
    }
}

/// A change of a category sets exactly the columns that the request gives.
pub proof fn law_category_changes_set_their_columns(q: UpdateCategoryRequest)
    ensures
        ({
            let s = category_assignments(q);
            &&& assigns_text(s, "name"@, q.name)
            &&& assigns_text(s, "description"@, q.description)
            &&& assigns_text(s, "preferred_model_id"@, q.preferred_model_id)
            &&& s.len() == given(q.name is Some) + given(q.description is Some) + given(
                q.preferred_model_id is Some,
            )
        }),
{
    broadcast use lemma_assigned_push;

    lemma_columns();
}

/// A change that sets nothing is refused, and any other is made.
pub proof fn law_empty_changes_are_refused(
    r: Result<RowUpdate, Reply>,
    table: Seq<char>,
    s: Seq<AssignmentView>,
)
    requires
        updates(r, table, s),
    ensures
        r is Ok <==> s.len() > 0,
        r is Err ==> r->Err_0@.status == 400,
        r is Ok ==> r->Ok_0.sql@ == update_sql(table, s) && r->Ok_0.assignments@.len() == s.len(),
        r is Ok ==> forall|i: int|
            0 <= i < s.len() ==> (#[trigger] r->Ok_0.assignments@[i])@ == s[i],
{
    if r is Ok {
        let a = r->Ok_0.assignments@;
        let v = assignment_views(a);
        assert(v == s);
        assert(v.len() == a.len());
        assert forall|i: int| 0 <= i < s.len() implies (#[trigger] a[i])@ == s[i] by {
            assert(v[i] == a[i]@);
        }
    }
}

/// The columns of a statement's list: each behind the ones before it, with a placeholder.
pub proof fn law_placeholders_follow_their_columns(s: Seq<AssignmentView>, a: AssignmentView)
    ensures
        set_list(Seq::<AssignmentView>::empty().push(a)) == a.column + " = ?"@,
        s.len() > 0 ==> has_prefix(set_list(s.push(a)), set_list(s)) && has_suffix(
            set_list(s.push(a)),
            ", "@ + a.column + " = ?"@,
        ) && set_list(s.push(a)).len() == set_list(s).len() + a.column.len() + 6,
{
    reveal_strlit(" = ?");
    reveal_strlit(", ");
    let one = Seq::<AssignmentView>::empty().push(a);
    assert(one[0] == a);
    if s.len() > 0 {
        let all = s.push(a);
        assert(all.drop_last() =~= s);
        let text = set_list(all);
        let tail = ", "@ + a.column + " = ?"@;
        assert(text =~= set_list(s) + tail);
        assert(text.subrange(0, set_list(s).len() as int) =~= set_list(s));
        assert(text.subrange(text.len() - tail.len(), text.len() as int) =~= tail);
    }
}

/// A statement changes the row with the given id, in the given table, and no other.
pub proof fn law_changes_meet_one_row(table: Seq<char>, s: Seq<AssignmentView>)
    ensures
        has_prefix(update_sql(table, s), "UPDATE "@ + table + " SET "@ + set_list(s)),
        has_suffix(update_sql(table, s), " WHERE id = ?"@),
{
    let sql = update_sql(table, s);
    let head = "UPDATE "@ + table + " SET "@ + set_list(s);
    let tail = " WHERE id = ?"@;
    assert(sql.subrange(0, head.len() as int) =~= head);
    assert(sql.subrange(sql.len() - tail.len(), sql.len() as int) =~= tail);
}

/// Deleting a model revokes every token that is pinned to it, stops its backend exactly where that
/// runs, unpins and deletes what is recorded of this model, and removes the directory of its
/// repository below the model directory.
pub proof fn law_deletion_is_complete(
    m: DeletableModel,
    blockers: Seq<BlockingToken>,
    model_path: Seq<char>,
    i: int,
)
    ensures
        ({
            let s = delete_steps(m, blockers, model_path);
            let n = blockers.len() as int;
            &&& s.len() == n + 6 + 2 * given(m.loaded)
            &&& 0 <= i < n ==> s[i] == (DeleteStepView::RevokeToken { id: blockers[i].id@ })
            &&& m.loaded ==> s[n] == (DeleteStepView::StopBackend {
                model_id: m.id@,
                backend_type: m.backend_type@,
            }) && s[n + 1] == (DeleteStepView::CleanUp { model_id: m.id@ })
            &&& s[s.len() - 5] == (DeleteStepView::ClearPins { model_id: m.id@ })
            &&& s[s.len() - 4] == (DeleteStepView::DeleteSecrets { model_id: m.id@ })
            &&& s[s.len() - 3] == (DeleteStepView::DeleteRow { model_id: m.id@ })
            &&& s.last() is RemoveFiles
            &&& has_prefix(s.last()->dir, model_path + "/"@)
            &&& has_suffix(s.last()->dir, "/"@ + repo_dir(m.hf_repo@))
            &&& s.last()->dir.len() == model_path.len() + 1 + repo_dir(m.hf_repo@).len()
        }),
{
    reveal_strlit("/");
    let dir = model_path + "/"@ + repo_dir(m.hf_repo@);
    let a = model_path + "/"@;
    let b = "/"@ + repo_dir(m.hf_repo@);
    assert(dir.subrange(0, a.len() as int) =~= a);
    assert(dir.subrange(dir.len() - b.len(), dir.len() as int) =~= b);
}

/// A model that is in use is not deleted: the reply lists each token that keeps it, in order, and
/// says how many they are.
pub proof fn law_models_in_use_are_kept(blockers: Seq<BlockingToken>)
    ensures
        ({
            let r = blocked_reply(blockers);
            let items = r.body.field("blocking_tokens"@)->0->Array_0;
            let message = r.body.text_field("error"@);
            &&& r.status == 409
            &&& r.body.field("blocking_tokens"@) is Some
            &&& items.len() == blockers.len()
            &&& forall|i: int|
                0 <= i < blockers.len() ==> #[trigger] items[i] == blocker_json(blockers[i])
            &&& message is Some
            &&& has_prefix(
                message->0,
                "Model is in use by "@ + crate::text::dec(blockers.len()) + " "@,
            )
        }),
{
    broadcast use lemma_lookup_push;

    reveal_strlit("error");
    reveal_strlit("blocking_tokens");
    assert("error"@.len() == 5 && "blocking_tokens"@.len() == 15);
    let a = "Model is in use by "@;
    let n = crate::text::dec(blockers.len());
    let text = a + n + " active token(s). Revoke them or retry with override=true."@;
    reveal_strlit(" ");
    reveal_strlit(" active token(s). Revoke them or retry with override=true.");
    let head = a + n + " "@;
    assert(text.subrange(0, head.len() as int) =~= head);
    let r = blocked_reply(blockers);
    assert(r.body.text_field("error"@) == Some(text));
    let list = blockers.map_values(|b: BlockingToken| blocker_json(b));
    assert(r.body.field("blocking_tokens"@) == Some(JsonView::Array(list)));
}

/// What is checked of a request: each text that is given, under its own name, against the bound for
/// its kind; a repository is also checked to be one.
pub proof fn law_given_texts_are_checked(
    name: Seq<char>,
    issuer: Seq<char>,
    client: Seq<char>,
    secret: Seq<char>,
    repo: Seq<char>,
    field: Seq<char>,
)
    ensures
        checks_of_idp(Some(name), Some(issuer), Some(client), Some(secret)) == seq![
            (CheckView::Length { field: "name"@, value: name, limit: Limit::Name }),
            (CheckView::Length { field: "issuer"@, value: issuer, limit: Limit::Url }),
            (CheckView::Length { field: "client_id"@, value: client, limit: Limit::Name }),
            (CheckView::Length { field: "client_secret"@, value: secret, limit: Limit::Secret }),
        ],
        checks_of_idp(None, Some(issuer), None, Some(secret)) == seq![
            (CheckView::Length { field: "issuer"@, value: issuer, limit: Limit::Url }),
            (CheckView::Length { field: "client_secret"@, value: secret, limit: Limit::Secret }),
        ],
        checks_of_category(Some(name), Some(secret)) == seq![
            (CheckView::Length { field: "name"@, value: name, limit: Limit::Name }),
            (CheckView::Length { field: "description"@, value: secret, limit: Limit::Description }),
        ],
        checks_of_repository(field, repo) == seq![
            (CheckView::Length { field, value: repo, limit: Limit::Name }),
            CheckView::Repository(repo),
        ],
        checks_of_idp(None, None, None, None).len() == 0,
        checks_of_category(None, None).len() == 0,
{
    assert(checks_of_idp(Some(name), Some(issuer), Some(client), Some(secret)) =~= seq![
        (CheckView::Length { field: "name"@, value: name, limit: Limit::Name }),
        (CheckView::Length { field: "issuer"@, value: issuer, limit: Limit::Url }),
        (CheckView::Length { field: "client_id"@, value: client, limit: Limit::Name }),
        (CheckView::Length { field: "client_secret"@, value: secret, limit: Limit::Secret }),
    ]);
    assert(checks_of_idp(None, Some(issuer), None, Some(secret)) =~= seq![
        (CheckView::Length { field: "issuer"@, value: issuer, limit: Limit::Url }),
        (CheckView::Length { field: "client_secret"@, value: secret, limit: Limit::Secret }),
    ]);
    assert(checks_of_category(Some(name), Some(secret)) =~= seq![
        (CheckView::Length { field: "name"@, value: name, limit: Limit::Name }),
        (CheckView::Length { field: "description"@, value: secret, limit: Limit::Description }),
    ]);
    assert(checks_of_repository(field, repo) =~= seq![
        (CheckView::Length { field, value: repo, limit: Limit::Name }),
        CheckView::Repository(repo),
    ]);
}

/// The first check that is not passed is answered; where all are passed, none is.
pub proof fn law_first_failed_check_is_answered(verdicts: Seq<Option<Reply>>, i: int)
    requires
        0 <= i <= verdicts.len(),
        forall|k: int| 0 <= k < i ==> (#[trigger] verdicts[k]) is None,
        i < verdicts.len() ==> verdicts[i] is Some,
    ensures
        i < verdicts.len() ==> refusal_of(verdicts) == Some(verdicts[i]->0@),
        i == verdicts.len() ==> refusal_of(verdicts) is None,
    decreases i,
{
    if i > 0 {
        assert(verdicts[0] is None);
        let rest = verdicts.drop_first();
        assert forall|k: int| 0 <= k < i - 1 implies (#[trigger] rest[k]) is None by {
            assert(rest[k] == verdicts[k + 1]);
        }
        law_first_failed_check_is_answered(rest, i - 1);
    }
}

/// The settings that can be changed: the weights of fair use, its window, and how long a request
/// may wait.
pub proof fn law_settings(key: Seq<char>)
    ensures
        is_setting(key) <==> seq![
            "fairness_base_priority"@,
            "fairness_wait_weight"@,
            "fairness_usage_weight"@,
            "fairness_usage_scale"@,
            "fairness_window_minutes"@,
            "queue_timeout_secs"@,
        ].contains(key),
{
    let all = seq![
        "fairness_base_priority"@,
        "fairness_wait_weight"@,
        "fairness_usage_weight"@,
        "fairness_usage_scale"@,
        "fairness_window_minutes"@,
        "queue_timeout_secs"@,
    ];
    assert(all[0] == "fairness_base_priority"@ && all[1] == "fairness_wait_weight"@);
    assert(all[2] == "fairness_usage_weight"@ && all[3] == "fairness_usage_scale"@);
    assert(all[4] == "fairness_window_minutes"@ && all[5] == "queue_timeout_secs"@);
}

/// An error tells its message under its own name.
pub proof fn law_errors_tell_their_message(status: u16, message: Seq<char>)
    ensures
        error_reply(status, message).status == status,
        error_reply(status, message).body.text_field("error"@) == Some(message),
{
    broadcast use lemma_lookup_push;

}

} // verus!
