//! What overrides, launch settings and starts of a backend amount to.
use vstd::prelude::*;
use crate::api::common::{
    basic_status, bucket_of, container_label, enriched, fsm_label, interval_of, is_start_config,
    label_value, launch_of, plan_refusal, start_refusal, state_name, stored_settings, vram_of,
    BackendFsmState, ContainerState, ContainerSummary, CrashRow, ModelStartRow, QuarantineRow,
    StartContainerParams,
};
use crate::api::download_laws::law_directories;
use crate::api::event_laws::number_under;
use crate::docker::llamacpp::{GpuType, LlamacppConfig};
use crate::docker::runtime_overrides::{
    by_name, cli_args, is_reserved, launch_json, launch_names, override_names, overrides_error,
    overrides_json, read_launch, read_overrides, read_stored, wrapped_json, wrapped_names,
    LaunchView, OverridesErrorView, OverridesView, WrappedView,
};
use crate::json::{lemma_lookup_at, lemma_lookup_push, JsonView};
use crate::metrics::StatusView;
use crate::text::{dec, has_suffix, lower, opt_view, views};
use crate::text_laws::{decimal_value, law_decimal_text, law_numbers_are_read};

verus! {

proof fn lemma_number(n: nat)
    ensures
        crate::text_laws::signed_value(dec(n)) == n,
{
    law_decimal_text(n);
    assert('0' <= dec(n)[0]);
}

/// Whether an optional number stands under a key: as a number, or as null where there is none.
pub open spec fn holds_number(j: JsonView, key: Seq<char>, n: Option<u32>) -> bool {
    match n {
        Some(k) => number_under(j, key) == Some(k as int),
        None => j.field(key) == Some(JsonView::Null),
    }
}

proof fn lemma_setting_keys()
    ensures
        "cache_ram_mib"@.len() == 13,
        "swa_full"@.len() == 8,
        "ctx_checkpoints"@.len() == 15,
        "cache_reuse"@.len() == 11,
        "extra"@.len() == 5,
        "gpu_type"@.len() == 8,
        "gpu_layers"@.len() == 10,
        "parallel"@.len() == 8,
        "cli"@.len() == 3,
        "launch"@.len() == 6,
        "swa_full"@ != "gpu_type"@,
        "swa_full"@ != "parallel"@,
        "gpu_type"@ != "parallel"@,
{
    reveal_strlit("cache_ram_mib");
    reveal_strlit("swa_full");
    reveal_strlit("ctx_checkpoints");
    reveal_strlit("cache_reuse");
    reveal_strlit("extra");
    reveal_strlit("gpu_type");
    reveal_strlit("gpu_layers");
    reveal_strlit("parallel");
    reveal_strlit("cli");
    reveal_strlit("launch");
    assert("gpu_type"@[0] == 'g');
    assert("parallel"@[0] == 'p');
    assert("swa_full"@[0] == 's');
}

/// Overrides are stored with each value under its own name.
pub proof fn law_overrides_are_stored_by_name(v: OverridesView)
    ensures
        ({
            let j = overrides_json(v);
            let items = j.field("extra"@)->0->Array_0;
            &&& holds_number(j, "cache_ram_mib"@, v.cache_ram_mib)
            &&& holds_number(j, "ctx_checkpoints"@, v.ctx_checkpoints)
            &&& holds_number(j, "cache_reuse"@, v.cache_reuse)
            &&& match v.swa_full {
                Some(b) => j.field("swa_full"@) == Some(JsonView::Bool(b)),
                None => j.field("swa_full"@) == Some(JsonView::Null),
            }
            &&& j.field("extra"@) is Some && j.field("extra"@)->0 is Array
            &&& items.len() == v.extra.len()
            &&& forall|i: int|
                0 <= i < items.len() ==> #[trigger] items[i] == JsonView::Text(v.extra[i])
        }),
{
    broadcast use lemma_lookup_push;

    lemma_setting_keys();
    if let Some(n) = v.cache_ram_mib {
        lemma_number(n as nat);
    }
    if let Some(n) = v.ctx_checkpoints {
        lemma_number(n as nat);
    }
    if let Some(n) = v.cache_reuse {
        lemma_number(n as nat);
    }
}

/// Launch settings are stored with each value under its own name, and beside the overrides.
pub proof fn law_launch_settings_are_stored_by_name(v: WrappedView)
    ensures
        ({
            let j = launch_json(v.launch);
            &&& holds_number(j, "gpu_layers"@, v.launch.gpu_layers)
            &&& holds_number(j, "parallel"@, v.launch.parallel)
            &&& match v.launch.gpu_type {
                Some(s) => j.text_field("gpu_type"@) == Some(s),
                None => j.field("gpu_type"@) == Some(JsonView::Null),
            }
            &&& wrapped_json(v).field("cli"@) == Some(overrides_json(v.cli))
            &&& wrapped_json(v).field("launch"@) == Some(j)
        }),
{
    broadcast use lemma_lookup_push;

    lemma_setting_keys();
    if let Some(n) = v.launch.gpu_layers {
        lemma_number(n as nat);
    }
    if let Some(n) = v.launch.parallel {
        lemma_number(n as nat);
    }
}

/// Overrides that are read from an object hold the numbers that stand there under their names, and
/// nothing under a name that is missing or null.
pub proof fn law_overrides_are_read_by_name(
    entries: Seq<(Seq<char>, JsonView)>,
    v: OverridesView,
    n: u32,
)
    requires
        read_overrides(JsonView::Object(entries)) == Ok::<OverridesView, OverridesErrorView>(v),
    ensures
        ({
            let j = JsonView::Object(entries);
            let given = Some(JsonView::Number(dec(n as nat)));
            &&& j.field("cache_ram_mib"@) == given ==> v.cache_ram_mib == Some(n)
            &&& j.field("ctx_checkpoints"@) == given ==> v.ctx_checkpoints == Some(n)
            &&& j.field("cache_reuse"@) == given ==> v.cache_reuse == Some(n)
            &&& j.field("cache_ram_mib"@) is None ==> v.cache_ram_mib is None
            &&& j.field("ctx_checkpoints"@) is None ==> v.ctx_checkpoints is None
            &&& j.field("cache_reuse"@) is None ==> v.cache_reuse is None
            &&& j.field("swa_full"@) == Some(JsonView::Bool(true)) ==> v.swa_full == Some(true)
            &&& j.field("swa_full"@) == Some(JsonView::Bool(false)) ==> v.swa_full == Some(false)
            &&& j.field("swa_full"@) is None ==> v.swa_full is None
            &&& j.field("extra"@) is None ==> v.extra.len() == 0
        }),
{
    law_numbers_are_read(n as nat, u32::MAX as int);
}

/// A value of another kind under a known name is refused, and so is a number that is too large.
pub proof fn law_wrong_values_are_refused(
    entries: Seq<(Seq<char>, JsonView)>,
    key: Seq<char>,
    n: nat,
)
    requires
        key == "cache_ram_mib"@ || key == "ctx_checkpoints"@ || key == "cache_reuse"@,
        ({
            let v = JsonView::Object(entries).field(key);
            ||| v is Some && (v->0 is Text || v->0 is Bool || v->0 is Array || v->0 is Object)
            ||| v == Some(JsonView::Number(dec(n))) && n > u32::MAX
        }),
    ensures
        read_overrides(JsonView::Object(entries)) is Err,
{
    law_numbers_are_read(n, u32::MAX as int);
}

/// Launch settings that are read from an object hold what stands there under their names.
pub proof fn law_launch_settings_are_read_by_name(
    entries: Seq<(Seq<char>, JsonView)>,
    v: LaunchView,
    n: u32,
    s: Seq<char>,
)
    requires
        read_launch(JsonView::Object(entries)) == Ok::<LaunchView, OverridesErrorView>(v),
    ensures
        ({
            let j = JsonView::Object(entries);
            let given = Some(JsonView::Number(dec(n as nat)));
            &&& j.field("gpu_layers"@) == given ==> v.gpu_layers == Some(n)
            &&& j.field("parallel"@) == given ==> v.parallel == Some(n)
            &&& j.field("gpu_layers"@) is None ==> v.gpu_layers is None
            &&& j.field("parallel"@) is None ==> v.parallel is None
            &&& j.text_field("gpu_type"@) == Some(s) ==> v.gpu_type == Some(s)
            &&& j.field("gpu_type"@) is None ==> v.gpu_type is None
        }),
{
    law_numbers_are_read(n as nat, u32::MAX as int);
}

/// Settings may also be stored as lists: the values of the fields, in a fixed order.
pub proof fn law_lists_give_the_fields_in_order(a: Seq<JsonView>)
    ensures
        a.len() == 5 ==> ({
            let j = by_name(JsonView::Array(a), override_names());
            &&& j.field("cache_ram_mib"@) == Some(a[0])
            &&& j.field("swa_full"@) == Some(a[1])
            &&& j.field("ctx_checkpoints"@) == Some(a[2])
            &&& j.field("cache_reuse"@) == Some(a[3])
            &&& j.field("extra"@) == Some(a[4])
        }),
        a.len() == 3 ==> ({
            let j = by_name(JsonView::Array(a), launch_names());
            &&& j.field("gpu_type"@) == Some(a[0])
            &&& j.field("gpu_layers"@) == Some(a[1])
            &&& j.field("parallel"@) == Some(a[2])
        }),
        a.len() == 2 ==> ({
            let j = by_name(JsonView::Array(a), wrapped_names());
            &&& j.field("cli"@) == Some(a[0])
            &&& j.field("launch"@) == Some(a[1])
        }),
{
    lemma_setting_keys();
    if a.len() == 5 {
        let x = by_name(JsonView::Array(a), override_names())->Object_0;
        lemma_lookup_at(x, "cache_ram_mib"@, 0);
        lemma_lookup_at(x, "swa_full"@, 1);
        lemma_lookup_at(x, "ctx_checkpoints"@, 2);
        lemma_lookup_at(x, "cache_reuse"@, 3);
        lemma_lookup_at(x, "extra"@, 4);
    }
    if a.len() == 3 {
        let x = by_name(JsonView::Array(a), launch_names())->Object_0;
        lemma_lookup_at(x, "gpu_type"@, 0);
        lemma_lookup_at(x, "gpu_layers"@, 1);
        lemma_lookup_at(x, "parallel"@, 2);
    }
    if a.len() == 2 {
        let x = by_name(JsonView::Array(a), wrapped_names())->Object_0;
        lemma_lookup_at(x, "cli"@, 0);
        lemma_lookup_at(x, "launch"@, 1);
    }
}

/// Overrides are accepted exactly where no number is above its bound and no further argument is
/// reserved: 16384 MiB of cache, 128 checkpoints, a prefix of 8192.
pub proof fn law_overrides_are_bounded(v: OverridesView)
    ensures
        overrides_error(v) is None <==> {
            &&& v.cache_ram_mib is Some ==> v.cache_ram_mib->0 <= 16384
            &&& v.ctx_checkpoints is Some ==> v.ctx_checkpoints->0 <= 128
            &&& v.cache_reuse is Some ==> v.cache_reuse->0 <= 8192
            &&& forall|i: int| 0 <= i < v.extra.len() ==> !is_reserved(#[trigger] v.extra[i])
        },
{
    lemma_first_reserved(v.extra);
}

proof fn lemma_first_reserved(extra: Seq<Seq<char>>)
    ensures
        crate::docker::runtime_overrides::first_reserved(extra) is None <==> forall|i: int|
            0 <= i < extra.len() ==> !is_reserved(#[trigger] extra[i]),
    decreases extra.len(),
{
    if extra.len() > 0 {
        let rest = extra.skip(1);
        lemma_first_reserved(rest);
        if is_reserved(extra[0]) {
        } else {
            if forall|i: int| 0 <= i < rest.len() ==> !is_reserved(#[trigger] rest[i]) {
                assert forall|i: int| 0 <= i < extra.len() implies !is_reserved(
                    #[trigger] extra[i],
                ) by {
                    if i > 0 {
                        assert(rest[i - 1] == extra[i]);
                    }
                }
            } else {
                let k = choose|k: int| 0 <= k < rest.len() && is_reserved(#[trigger] rest[k]);
                assert(extra[k + 1] == rest[k]);
            }
        }
    }
}

/// The flags that the proxy sets itself are reserved, alone and with a value behind an equals sign.
pub proof fn law_own_flags_are_reserved(value: Seq<char>)
    ensures
        is_reserved("--model"@) && is_reserved("--model"@ + "="@ + value),
        is_reserved("--host"@) && is_reserved("--host"@ + "="@ + value),
        is_reserved("--port"@) && is_reserved("--port"@ + "="@ + value),
        is_reserved("--api-key"@) && is_reserved("--api-key"@ + "="@ + value),
        is_reserved("-ngl"@) && is_reserved("-ngl"@ + "="@ + value),
        is_reserved("-c"@) && is_reserved("-c"@ + "="@ + value),
        is_reserved("-np"@) && is_reserved("-np"@ + "="@ + value),
{
    lemma_with_value("--model"@, value);
    lemma_with_value("--host"@, value);
    lemma_with_value("--port"@, value);
    lemma_with_value("--api-key"@, value);
    lemma_with_value("-ngl"@, value);
    lemma_with_value("-c"@, value);
    lemma_with_value("-np"@, value);
}

proof fn lemma_with_value(flag: Seq<char>, value: Seq<char>)
    ensures
        crate::docker::runtime_overrides::sets_flag(flag + "="@ + value, flag),
        crate::docker::runtime_overrides::sets_flag(flag, flag),
{
    let all = flag + "="@ + value;
    let head = flag + "="@;
    assert(all.subrange(0, head.len() as int) =~= head);
}

/// How many arguments an optional number takes.
pub open spec fn taken(n: Option<u32>) -> int {
    if n is Some {
        2
    } else {
        0
    }
}

/// The command line of overrides: each number behind its own flag, in a fixed order, the flag for
/// full windows exactly where it is set, and the further arguments last.
pub proof fn law_overrides_on_the_command_line(v: OverridesView)
    ensures
        ({
            let args = cli_args(v);
            let a = taken(v.cache_ram_mib);
            let b = a + if v.swa_full == Some(true) {
                1int
            } else {
                0int
            };
            let c = b + taken(v.ctx_checkpoints);
            let d = c + taken(v.cache_reuse);
            &&& args.len() == d + v.extra.len()
            &&& v.cache_ram_mib is Some ==> args[0] == "--cache-ram"@ && decimal_value(args[1])
                == v.cache_ram_mib->0
            &&& v.swa_full == Some(true) ==> args[a] == "--swa-full"@
            &&& v.ctx_checkpoints is Some ==> args[b] == "-ctxcp"@ && decimal_value(args[b + 1])
                == v.ctx_checkpoints->0
            &&& v.cache_reuse is Some ==> args[c] == "--cache-reuse"@ && decimal_value(args[c + 1])
                == v.cache_reuse->0
            &&& args.skip(d) == v.extra
        }),
{
    if let Some(n) = v.cache_ram_mib {
        law_decimal_text(n as nat);
    }
    if let Some(n) = v.ctx_checkpoints {
        law_decimal_text(n as nat);
    }
    if let Some(n) = v.cache_reuse {
        law_decimal_text(n as nat);
    }
    let args = cli_args(v);
    let d = args.len() - v.extra.len();
    assert(args.skip(d) =~= v.extra);
}

/// A backend is started for the model that was asked for: with its own file and projector, in the
/// directory of its repository, with its own context for each slot, and with what the request asks
/// for. Nothing asked for means one slot, all layers on the GPU, and no GPU.
pub proof fn law_starts_follow_the_request(
    c: LlamacppConfig,
    row: ModelStartRow,
    p: StartContainerParams,
    uid: u32,
    key: Seq<char>,
)
    requires
        is_start_config(c, row, p, uid, key),
        row.filename is Some,
        row.context_length is Some && 0 <= row.context_length->0 <= u32::MAX,
    ensures
        c.model_id@ == row.id@,
        has_suffix(c.gguf_path@, "/"@ + row.filename->0@),
        row.mmproj_filename is None ==> c.mmproj_path is None,
        row.mmproj_filename is Some ==> c.mmproj_path is Some && has_suffix(
            c.mmproj_path->0@,
            "/"@ + row.mmproj_filename->0@,
        ) && c.mmproj_path->0@.len() - row.mmproj_filename->0@.len() == c.gguf_path@.len()
            - row.filename->0@.len(),
        c.context_size == row.context_length->0,
        p.parallel is Some && p.parallel->0 >= 1 ==> c.parallel == p.parallel->0,
        p.parallel is None ==> c.parallel == 1,
        c.parallel >= 1,
        p.gpu_layers is Some ==> c.gpu_layers == p.gpu_layers->0,
        p.gpu_layers is None ==> c.gpu_layers == 99,
        c.uid == uid,
        c.api_key@ == key,
        views(c.extra_args@) == cli_args(stored_settings(row).cli),
        p.gpu_type is Some ==> (c.gpu_type == GpuType::Vulkan <==> lower(p.gpu_type->0@)
            == "vulkan"@),
{
    let dir = crate::api::downloads::repo_dir(row.hf_repo@);
    let tail = "/"@ + row.filename->0@;
    let path = dir + "/"@ + row.filename->0@;
    assert(path.subrange(path.len() - tail.len(), path.len() as int) =~= tail);
    if let Some(f) = row.mmproj_filename {
        let end = "/"@ + f@;
        let other = dir + "/"@ + f@;
        assert(other.subrange(other.len() - end.len(), other.len() as int) =~= end);
    }
}

/// A model's files are looked for where a download puts them: in the directory that is named by the
/// owner and the name of its repository.
pub proof fn law_files_are_where_downloads_put_them(
    c: LlamacppConfig,
    row: ModelStartRow,
    p: StartContainerParams,
    uid: u32,
    key: Seq<char>,
    owner: Seq<char>,
    name: Seq<char>,
)
    requires
        is_start_config(c, row, p, uid, key),
        row.filename is Some,
        row.hf_repo@ == owner.push('/') + name,
        !owner.contains('/') && !name.contains('/'),
    ensures
        c.gguf_path@ == owner + "--"@ + name + "/"@ + row.filename->0@,
        row.mmproj_filename is Some ==> opt_view(c.mmproj_path) == Some(
            owner + "--"@ + name + "/"@ + row.mmproj_filename->0@,
        ),
{
    law_directories(owner, name);
}

/// What is stored of a start is what was asked for, beside the overrides that were there; settings
/// that cannot be read count as none.
pub proof fn law_stored_settings(row: ModelStartRow, p: StartContainerParams, w: WrappedView)
    ensures
        read_stored(row.runtime_overrides@) == Ok::<WrappedView, OverridesErrorView>(w)
            ==> stored_settings(row) == w,
        read_stored(row.runtime_overrides@) is Err ==> {
            let s = stored_settings(row);
            &&& s.cli.cache_ram_mib is None && s.cli.swa_full is None && s.cli.ctx_checkpoints is None
            &&& s.cli.cache_reuse is None && s.cli.extra.len() == 0
            &&& s.launch.gpu_type is None && s.launch.gpu_layers is None && s.launch.parallel is None
        },
        launch_of(p).gpu_type == opt_view(p.gpu_type),
        launch_of(p).gpu_layers == p.gpu_layers,
        launch_of(p).parallel == p.parallel,
{
}

/// A start is refused where the model is unknown or has no context length, where the backend is not
/// known, and where the model has no file.
pub proof fn law_starts_are_refused(row: ModelStartRow, p: StartContainerParams)
    ensures
        start_refusal(None) is Some && start_refusal(None)->0.status == 404,
        start_refusal(Some(row)) is None <==> row.context_length is Some,
        row.context_length is None ==> start_refusal(Some(row))->0.status == 400,
        ({
            let wanted = if p.backend_type is Some {
                p.backend_type->0@
            } else {
                row.backend_type@
            };
            &&& plan_refusal(row, p) is None <==> wanted == "llamacpp"@ && row.filename is Some
            &&& plan_refusal(row, p) is Some ==> plan_refusal(row, p)->0.status == 400
        }),
{
}

/// The value of a label.
pub proof fn law_labels_are_looked_up(labels: Seq<(String, String)>, name: Seq<char>, i: int)
    requires
        0 <= i <= labels.len(),
        forall|k: int| 0 <= k < i ==> (#[trigger] labels[k]).0@ != name,
        i < labels.len() ==> labels[i].0@ == name,
    ensures
        i < labels.len() ==> label_value(labels, name) == Some(labels[i].1@),
        i == labels.len() ==> label_value(labels, name) is None,
    decreases i,
{
    if i > 0 {
        assert(labels[0].0@ != name);
        let rest = labels.skip(1);
        assert forall|k: int| 0 <= k < i - 1 implies (#[trigger] rest[k]).0@ != name by {
            assert(rest[k] == labels[k + 1]);
        }
        law_labels_are_looked_up(rest, name, i - 1);
    }
}

/// The memory of a model's container.
pub proof fn law_memory_is_looked_up(vram: Seq<(String, u64)>, model: Seq<char>, i: int)
    requires
        0 <= i <= vram.len(),
        forall|k: int| 0 <= k < i ==> (#[trigger] vram[k]).0@ != model,
        i < vram.len() ==> vram[i].0@ == model,
    ensures
        i < vram.len() ==> vram_of(vram, model) == Some(vram[i].1),
        i == vram.len() ==> vram_of(vram, model) is None,
    decreases i,
{
    if i > 0 {
        assert(vram[0].0@ != model);
        let rest = vram.skip(1);
        assert forall|k: int| 0 <= k < i - 1 implies (#[trigger] rest[k]).0@ != model by {
            assert(rest[k] == vram[k + 1]);
        }
        law_memory_is_looked_up(rest, model, i - 1);
    }
}

/// The status of a container: its model and backend are what its labels say, it is healthy exactly
/// where it runs, and its memory is that of its model. Nothing is known yet of crashes.
pub proof fn law_status_of_a_container(
    c: ContainerSummary,
    vram: Seq<(String, u64)>,
    model: Seq<char>,
)
    requires
        container_label(c, "sovereign-engine.model-id"@) == Some(model),
    ensures
        ({
            let s = basic_status(c, vram);
            &&& s.model_id == model
            &&& s.healthy <==> c.state == Some(ContainerState::Running)
            &&& s.state is Some <==> c.state is Some
            &&& c.state is Some ==> s.state == Some(state_name(c.state->0))
            &&& s.vram_used_mb == vram_of(vram, model)
            &&& container_label(c, "sovereign-engine.backend"@) is Some ==> Some(s.backend_type)
                == container_label(c, "sovereign-engine.backend"@)
            &&& container_label(c, "sovereign-engine.backend"@) is None ==> s.backend_type
                == "llamacpp"@
            &&& s.fsm_state is None && !s.quarantined && s.quarantine_reason is None
                && s.last_crash is None
        }),
{
}

/// What the supervisor and the database know of a model is added to the status of its container,
/// and nothing else is changed; a container without a model is left alone.
pub proof fn law_status_is_enriched(
    s: StatusView,
    fsm: BackendFsmState,
    q: QuarantineRow,
    c: CrashRow,
)
    ensures
        ({
            let t = enriched(s, Some(fsm), Some(q), Some(c));
            &&& t.model_id == s.model_id && t.backend_type == s.backend_type && t.healthy
                == s.healthy
            &&& t.state == s.state && t.vram_used_mb == s.vram_used_mb
            &&& s.model_id.len() == 0 ==> t == s
            &&& s.model_id.len() > 0 ==> {
                &&& t.fsm_state == Some(fsm_label(fsm))
                &&& t.quarantined <==> q.quarantined_at is Some
                &&& t.quarantine_reason == opt_view(q.quarantine_reason)
                &&& t.last_crash is Some
                &&& t.last_crash->0.occurred_at == c.occurred_at@
                &&& t.last_crash->0.exit_code == c.exit_code
                &&& t.last_crash->0.oom_killed <==> c.oom_killed != 0
                &&& t.last_crash->0.log_path_present <==> c.log_path is Some
            }
            &&& enriched(s, None, None, None) == s
        }),
{
}

/// Different states have different names.
pub proof fn law_states_are_told_apart(a: ContainerState, b: ContainerState, x: BackendFsmState, y: BackendFsmState)
    ensures
        state_name(a) == state_name(b) ==> a == b,
        fsm_label(x) == fsm_label(y) ==> x == y,
{
    lemma_state_names();
}

proof fn lemma_state_names()
    ensures
        "empty"@.len() == 5,
        "created"@.len() == 7,
        "running"@.len() == 7,
        "paused"@.len() == 6,
        "restarting"@.len() == 10,
        "exited"@.len() == 6,
        "removing"@.len() == 8,
        "dead"@.len() == 4,
        "Starting"@.len() == 8,
        "Healthy"@.len() == 7,
        "Suspect"@.len() == 7,
        "Crashed"@.len() == 7,
        "Quarantined"@.len() == 11,
        "created"@ != "running"@,
        "paused"@ != "exited"@,
        "removing"@ != "Starting"@,
        "created"@ != "Healthy"@,
        "running"@ != "Healthy"@,
        "created"@ != "Suspect"@,
        "running"@ != "Suspect"@,
        "Healthy"@ != "Suspect"@,
        "created"@ != "Crashed"@,
        "running"@ != "Crashed"@,
        "Healthy"@ != "Crashed"@,
        "Suspect"@ != "Crashed"@,
{
    reveal_strlit("empty");
    reveal_strlit("created");
    reveal_strlit("running");
    reveal_strlit("paused");
    reveal_strlit("restarting");
    reveal_strlit("exited");
    reveal_strlit("removing");
    reveal_strlit("dead");
    reveal_strlit("Starting");
    reveal_strlit("Healthy");
    reveal_strlit("Suspect");
    reveal_strlit("Crashed");
    reveal_strlit("Quarantined");
    assert("Crashed"@[0] == 'C');
    assert("Healthy"@[0] == 'H');
    assert("Starting"@[0] == 'S');
    assert("Suspect"@[0] == 'S');
    assert("created"@[0] == 'c');
    assert("exited"@[0] == 'e');
    assert("paused"@[0] == 'p');
    assert("removing"@[0] == 'r');
    assert("running"@[0] == 'r');
}

/// A longer period goes back further, and is shown in buckets that are not finer.
pub proof fn law_periods(other: Seq<char>)
    requires
        other != "hour"@ && other != "week"@ && other != "month"@,
    ensures
        interval_of("hour"@) == "-1 hour"@,
        interval_of("day"@) == "-1 day"@,
        interval_of("week"@) == "-7 days"@,
        interval_of("month"@) == "-30 days"@,
        interval_of(other) == "-1 day"@,
        bucket_of("hour"@) == "%Y-%m-%dT%H:%M:00"@,
        bucket_of("day"@) == "%Y-%m-%dT%H:00:00"@,
        bucket_of("week"@) == "%Y-%m-%d"@,
        bucket_of("month"@) == "%Y-%m-%d"@,
        bucket_of(other) == "%Y-%m-%dT%H:00:00"@,
{
    reveal_strlit("hour");
    reveal_strlit("day");
    reveal_strlit("week");
    reveal_strlit("month");
    assert("hour"@[0] == 'h' && "week"@[0] == 'w');
    assert("hour"@.len() == 4 && "day"@.len() == 3 && "month"@.len() == 5);
    assert("week"@.len() == 4);
}

} // verus!
