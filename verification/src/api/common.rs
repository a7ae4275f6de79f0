//! Rules shared by several endpoints: reporting periods, container states, starting a backend and
//! what is recorded when one dies.
use vstd::prelude::*;
use vstd::string::StringExecFns;
use crate::api::downloads::{repo_dir, safe_repo};
use crate::api::kv::{as_unsigned, to_unsigned};
use crate::docker::llamacpp::{GpuType, LlamacppConfig};
use crate::docker::runtime_overrides::{
    cli_args, nothing_stored, read_stored, wrapped_json, LaunchView, ModelRuntimeOverrides,
    OverridesErrorView, OverridesView, PersistedLaunchConfig, WrappedRuntimeJson, WrappedView,
};
use crate::json::record_text;
use crate::metrics::{ContainerStatus, CrashView, LastCrashSummary, StatusView};
use crate::reply::{error_reply, Reply, ReplyView};
use crate::text::{lower, opt_view, str_eq, views};

verus! {

/// The offset of a reporting period.
pub open spec fn interval_of(period: Seq<char>) -> Seq<char> {
    if period == "hour"@ {
        "-1 hour"@
    } else if period == "day"@ {
        "-1 day"@
    } else if period == "week"@ {
        "-7 days"@
    } else if period == "month"@ {
        "-30 days"@
    } else {
        "-1 day"@
    }
}

/// The format that groups a reporting period's records by time.
pub open spec fn bucket_of(period: Seq<char>) -> Seq<char> {
    if period == "hour"@ {
        "%Y-%m-%dT%H:%M:00"@
    } else if period == "day"@ {
        "%Y-%m-%dT%H:00:00"@
    } else if period == "week"@ {
        "%Y-%m-%d"@
    } else if period == "month"@ {
        "%Y-%m-%d"@
    } else {
        "%Y-%m-%dT%H:00:00"@
    }
}

/// The offset of a reporting period; a day for a period that is not known.
pub fn period_to_interval(period: &str) -> (r: &'static str)
    ensures
        r@ == interval_of(period@),
{
    if str_eq(period, "hour") {
        "-1 hour"
    } else if str_eq(period, "day") {
        "-1 day"
    } else if str_eq(period, "week") {
        "-7 days"
    } else if str_eq(period, "month") {
        "-30 days"
    } else {
        "-1 day"
    }
}

/// The offset of a reporting period, and the format that groups its records by time.
pub fn period_to_interval_and_bucket(period: &str) -> (r: (&'static str, &'static str))
    ensures
        r.0@ == interval_of(period@),
        r.1@ == bucket_of(period@),
{
    let bucket = if str_eq(period, "hour") {
        "%Y-%m-%dT%H:%M:00"
    } else if str_eq(period, "day") {
        "%Y-%m-%dT%H:00:00"
    } else if str_eq(period, "week") {
        "%Y-%m-%d"
    } else if str_eq(period, "month") {
        "%Y-%m-%d"
    } else {
        "%Y-%m-%dT%H:00:00"
    };
    (period_to_interval(period), bucket)
}

/// The state of a container as Docker reports it.
#[derive(Debug, Clone, Copy, PartialEq, Eq, Structural)]
pub enum ContainerState {
    Empty,
    Created,
    Running,
    Paused,
    Restarting,
    Exited,
    Removing,
    Dead,
}

/// What Docker reports of a container.
#[derive(Debug)]
pub struct ContainerSummary {
    /// Label names and values.
    pub labels: Option<Vec<(String, String)>>,
    pub state: Option<ContainerState>,
}

/// The name of a state.
pub open spec fn state_name(s: ContainerState) -> Seq<char> {
    match s {
        ContainerState::Empty => "empty"@,
        ContainerState::Created => "created"@,
        ContainerState::Running => "running"@,
        ContainerState::Paused => "paused"@,
        ContainerState::Restarting => "restarting"@,
        ContainerState::Exited => "exited"@,
        ContainerState::Removing => "removing"@,
        ContainerState::Dead => "dead"@,
    }
}

impl ContainerState {
    /// The name of the state.
    pub fn name(&self) -> (r: &'static str)
        ensures
            r@ == state_name(*self),
    {
        match self {
            ContainerState::Empty => "empty",
            ContainerState::Created => "created",
            ContainerState::Running => "running",
            ContainerState::Paused => "paused",
            ContainerState::Restarting => "restarting",
            ContainerState::Exited => "exited",
            ContainerState::Removing => "removing",
            ContainerState::Dead => "dead",
        }
    }
}

/// The value of the first label with a name.
pub open spec fn label_value(labels: Seq<(String, String)>, name: Seq<char>) -> Option<Seq<char>>
    decreases labels.len(),
{
    if labels.len() == 0 {
        None
    } else if labels[0].0@ == name {
        Some(labels[0].1@)
    } else {
        label_value(labels.skip(1), name)
    }
}

/// The value of a container's label.
pub open spec fn container_label(c: ContainerSummary, name: Seq<char>) -> Option<Seq<char>> {
    match c.labels {
        Some(l) => label_value(l@, name),
        None => None,
    }
}

/// The memory in use by a model.
pub open spec fn vram_of(vram: Seq<(String, u64)>, model_id: Seq<char>) -> Option<u64>
    decreases vram.len(),
{
    if vram.len() == 0 {
        None
    } else if vram[0].0@ == model_id {
        Some(vram[0].1)
    } else {
        vram_of(vram.skip(1), model_id)
    }
}

/// The text under an option, or a default.
pub open spec fn or_default(o: Option<Seq<char>>, default: Seq<char>) -> Seq<char> {
    match o {
        Some(s) => s,
        None => default,
    }
}

/// The state of a backend's container, before what the supervisor knows is added.
pub open spec fn basic_status(c: ContainerSummary, vram: Seq<(String, u64)>) -> StatusView {
    let model_id = or_default(container_label(c, "sovereign-engine.model-id"@), Seq::empty());
    StatusView {
        model_id,
        backend_type: or_default(container_label(c, "sovereign-engine.backend"@), "llamacpp"@),
        healthy: c.state == Some(ContainerState::Running),
        state: match c.state {
            Some(s) => Some(state_name(s)),
            None => None,
        },
        vram_used_mb: vram_of(vram, model_id),
        fsm_state: None,
        quarantined: false,
        quarantine_reason: None,
        last_crash: None,
    }
}

/// The value of a container's label.
fn get_label(c: &ContainerSummary, name: &str) -> (r: Option<String>)
    ensures
        opt_view(r) == container_label(*c, name@),
{
    if let Some(l) = &c.labels {
        let mut i: usize = 0;
        assert(l@.skip(0) =~= l@);
        while i < l.len()
            invariant
                c.labels == Some(*l),
                i <= l@.len(),
                label_value(l@, name@) == label_value(l@.skip(i as int), name@),
            decreases l@.len() - i,
        {
            assert(l@.skip(i as int).skip(1) =~= l@.skip(i + 1));
            if str_eq(&l[i].0, name) {
                return Some(l[i].1.clone());
            }
            i += 1;
        }
    }
    None
}

/// The memory in use by a model.
fn get_vram(vram: &Vec<(String, u64)>, model_id: &str) -> (r: Option<u64>)
    ensures
        r == vram_of(vram@, model_id@),
{
    let mut i: usize = 0;
    assert(vram@.skip(0) =~= vram@);
    while i < vram.len()
        invariant
            i <= vram@.len(),
            vram_of(vram@, model_id@) == vram_of(vram@.skip(i as int), model_id@),
        decreases vram@.len() - i,
    {
        assert(vram@.skip(i as int).skip(1) =~= vram@.skip(i + 1));
        if str_eq(&vram[i].0, model_id) {
            return Some(vram[i].1);
        }
        i += 1;
    }
    None
}

/// The states of all containers, before what the supervisor knows is added. `vram` gives the
/// memory in use by each model.
pub fn extract_container_statuses(
    containers: &Vec<ContainerSummary>,
    vram: &Vec<(String, u64)>,
) -> (r: Vec<ContainerStatus>)
    ensures
        r@.len() == containers@.len(),
        forall|i: int| 0 <= i < r@.len() ==> #[trigger] r@[i]@ == basic_status(containers@[i], vram@),
{
    let mut out: Vec<ContainerStatus> = Vec::new();
    let mut i: usize = 0;
    while i < containers.len()
        invariant
            i == out@.len(),
            i <= containers@.len(),
            forall|j: int| 0 <= j < i ==> #[trigger] out@[j]@ == basic_status(containers@[j], vram@),
        decreases containers@.len() - i,
    {
        let c = &containers[i];
        let model_id = match get_label(c, "sovereign-engine.model-id") {
            Some(s) => s,
            None => String::new(),
        };
        let backend_type = match get_label(c, "sovereign-engine.backend") {
            Some(s) => s,
            None => "llamacpp".to_owned(),
        };
        let healthy = match c.state {
            Some(s) => s == ContainerState::Running,
            None => false,
        };
        let state = match c.state {
            Some(s) => Some(s.name().to_owned()),
            None => None,
        };
        let vram_used_mb = get_vram(vram, &model_id);
        out.push(
            ContainerStatus {
                model_id,
                backend_type,
                healthy,
                state,
                vram_used_mb,
                fsm_state: None,
                quarantined: false,
                quarantine_reason: None,
                last_crash: None,
            },
        );
        i += 1;
    }
    out
}

/// What the supervisor thinks of a backend.
#[derive(Debug, Clone, Copy, PartialEq, Eq, Structural)]
pub enum BackendFsmState {
    Starting,
    Healthy,
    Suspect,
    Crashed,
    Quarantined,
}

/// The name of a supervisor state.
pub open spec fn fsm_label(s: BackendFsmState) -> Seq<char> {
    match s {
        BackendFsmState::Starting => "Starting"@,
        BackendFsmState::Healthy => "Healthy"@,
        BackendFsmState::Suspect => "Suspect"@,
        BackendFsmState::Crashed => "Crashed"@,
        BackendFsmState::Quarantined => "Quarantined"@,
    }
}

/// The name of a supervisor state.
pub fn fsm_state_label(s: BackendFsmState) -> (r: &'static str)
    ensures
        r@ == fsm_label(s),
{
    match s {
        BackendFsmState::Starting => "Starting",
        BackendFsmState::Healthy => "Healthy",
        BackendFsmState::Suspect => "Suspect",
        BackendFsmState::Crashed => "Crashed",
        BackendFsmState::Quarantined => "Quarantined",
    }
}

/// What is recorded of a model's quarantine: since when, and why.
#[derive(Debug)]
pub struct QuarantineRow {
    pub quarantined_at: Option<String>,
    pub quarantine_reason: Option<String>,
}

/// What is recorded of a crash.
#[derive(Debug)]
pub struct CrashRow {
    pub occurred_at: String,
    pub exit_code: Option<i64>,
    pub oom_killed: i64,
    pub log_path: Option<String>,
}

/// A crash, in short.
pub open spec fn crash_summary(c: CrashRow) -> CrashView {
    CrashView {
        occurred_at: c.occurred_at@,
        exit_code: c.exit_code,
        oom_killed: c.oom_killed != 0,
        log_path_present: c.log_path is Some,
    }
}

/// A container's state with what the supervisor and the records know. A container without a model
/// stays as it is, and so does whatever nothing is known of.
pub open spec fn enriched(
    s: StatusView,
    fsm: Option<BackendFsmState>,
    quarantine: Option<QuarantineRow>,
    crash: Option<CrashRow>,
) -> StatusView {
    if s.model_id.len() == 0 {
        s
    } else {
        StatusView {
            fsm_state: match fsm {
                Some(f) => Some(fsm_label(f)),
                None => s.fsm_state,
            },
            quarantined: match quarantine {
                Some(q) => q.quarantined_at is Some,
                None => s.quarantined,
            },
            quarantine_reason: match quarantine {
                Some(q) => opt_view(q.quarantine_reason),
                None => s.quarantine_reason,
            },
            last_crash: match crash {
                Some(c) => Some(crash_summary(c)),
                None => s.last_crash,
            },
            ..s
        }
    }
}

/// Adds to a container's state what the supervisor and the records know.
pub fn enrich_container_status(
    status: &mut ContainerStatus,
    fsm: Option<BackendFsmState>,
    quarantine: Option<QuarantineRow>,
    crash: Option<CrashRow>,
)
    ensures
        final(status)@ == enriched(old(status)@, fsm, quarantine, crash),
{
    if status.model_id.as_str().is_empty() {
        return ;
    }
    if let Some(f) = fsm {
        status.fsm_state = Some(fsm_state_label(f).to_owned());
    }
    if let Some(q) = quarantine {
        status.quarantined = q.quarantined_at.is_some();
        status.quarantine_reason = q.quarantine_reason;
    }
    if let Some(c) = crash {
        status.last_crash =
        Some(
            LastCrashSummary {
                occurred_at: c.occurred_at,
                exit_code: c.exit_code,
                oom_killed: c.oom_killed != 0,
                log_path_present: c.log_path.is_some(),
            },
        );
    }
}

/// A request to start a backend.
#[derive(Debug)]
pub struct StartContainerParams {
    pub model_id: String,
    pub backend_type: Option<String>,
    pub gpu_type: Option<String>,
    pub gpu_layers: Option<u32>,
    pub parallel: Option<u32>,
}

/// What is recorded of a model that is to be started.
#[derive(Debug)]
pub struct ModelStartRow {
    pub id: String,
    pub hf_repo: String,
    pub filename: Option<String>,
    pub backend_type: String,
    pub context_length: Option<i64>,
    /// The stored overrides and launch settings.
    pub runtime_overrides: String,
    /// The name of the model's projector.
    pub mmproj_filename: Option<String>,
}

/// How a backend is started, and what is recorded once it is.
#[derive(Debug)]
pub struct StartPlan {
    pub config: LlamacppConfig,
    /// The number of requests that the backend serves at a time.
    pub parallel_slots: u32,
    /// The overrides and launch settings to store.
    pub runtime_overrides: String,
}

/// Why a model cannot be started, before a user has been chosen for its container.
pub open spec fn start_refusal(row: Option<ModelStartRow>) -> Option<ReplyView> {
    match row {
        None => Some(error_reply(404, "Model not found"@)),
        Some(m) => if m.context_length is None {
            Some(
                error_reply(
                    400,
                    "Model has no context_length set — cannot start container. Re-download or manually set context_length in the database."@,
                ),
            )
        } else {
            None
        },
    }
}

/// Why a model cannot be started, before a user has been chosen for its container.
pub fn check_start(row: Option<&ModelStartRow>) -> (r: Option<Reply>)
    ensures
        match r {
            Some(reply) => start_refusal(
                match row {
                    Some(m) => Some(*m),
                    None => None,
                },
            ) == Some(reply@),
            None => row is Some && row->0.context_length is Some,
        },
{
    match row {
        None => Some(Reply::error(404, "Model not found")),
        Some(m) => if m.context_length.is_none() {
            Some(
                Reply::error(
                    400,
                    "Model has no context_length set — cannot start container. Re-download or manually set context_length in the database.",
                ),
            )
        } else {
            None
        },
    }
}

/// The backend that is asked for: the request's, or else the model's own.
pub open spec fn wanted_backend(row: ModelStartRow, p: StartContainerParams) -> Seq<char> {
    match p.backend_type {
        Some(b) => b@,
        None => row.backend_type@,
    }
}

/// Why a model with a context length cannot be started.
pub open spec fn plan_refusal(row: ModelStartRow, p: StartContainerParams) -> Option<ReplyView> {
    if wanted_backend(row, p) != "llamacpp"@ {
        Some(error_reply(400, "Unknown backend type: "@ + wanted_backend(row, p)))
    } else if row.filename is None {
        Some(
            error_reply(
                400,
                "No filename recorded for this model — cannot determine GGUF file path"@,
            ),
        )
    } else {
        None
    }
}

/// The slots to start with: at least one.
pub open spec fn start_slots(p: StartContainerParams) -> u32 {
    match p.parallel {
        Some(n) => if n >= 1 {
            n
        } else {
            1
        },
        None => 1,
    }
}

/// What is stored of a model's settings; nothing where that cannot be read.
pub open spec fn stored_settings(row: ModelStartRow) -> WrappedView {
    match read_stored(row.runtime_overrides@) {
        Ok(w) => w,
        Err(_) => nothing_stored(),
    }
}

/// The launch settings that a request gives.
pub open spec fn launch_of(p: StartContainerParams) -> LaunchView {
    LaunchView {
        gpu_type: opt_view(p.gpu_type),
        gpu_layers: p.gpu_layers,
        parallel: p.parallel,
    }
}

/// The GPU type that launch settings ask for.
pub open spec fn launch_gpu(l: LaunchView) -> GpuType {
    if lower(or_default(l.gpu_type, "none"@)) == "vulkan"@ {
        GpuType::Vulkan
    } else {
        GpuType::Cpu
    }
}

/// Whether `c` is how the model is started.
pub open spec fn is_start_config(
    c: LlamacppConfig,
    row: ModelStartRow,
    p: StartContainerParams,
    uid: u32,
    api_key: Seq<char>,
) -> bool {
    is_config_with(c, row, p, uid, api_key, stored_settings(row).cli)
}

/// Whether `c` is how the model is started with the given overrides.
pub open spec fn is_config_with(
    c: LlamacppConfig,
    row: ModelStartRow,
    p: StartContainerParams,
    uid: u32,
    api_key: Seq<char>,
    cli: OverridesView,
) -> bool {
    &&& c.model_id@ == row.id@
    &&& c.gguf_path@ == repo_dir(row.hf_repo@) + "/"@ + row.filename->0@
    &&& opt_view(c.mmproj_path) == (match row.mmproj_filename {
        Some(f) => Some(repo_dir(row.hf_repo@) + "/"@ + f@),
        None => None,
    })
    &&& c.gpu_type == launch_gpu(launch_of(p))
    &&& c.gpu_layers == (match p.gpu_layers {
        Some(n) => n,
        None => 99,
    })
    &&& c.context_size == as_unsigned(row.context_length->0) % 0x1_0000_0000
    &&& c.parallel == start_slots(p)
    &&& views(c.extra_args@) == cli_args(cli)
    &&& c.uid == uid
    &&& c.api_key@ == api_key
}

/// How a model is started with the given overrides, under the given user and key, and what is
/// recorded once it is. The overrides stay; the launch settings become those of the request.
pub fn plan_start_with(
    row: &ModelStartRow,
    params: &StartContainerParams,
    uid: u32,
    api_key: String,
    cli: ModelRuntimeOverrides,
) -> (r: Result<StartPlan, Reply>)
    requires
        row.context_length is Some,
    ensures
        match r {
            Err(reply) => plan_refusal(*row, *params) == Some(reply@),
            Ok(plan) => {
                let next = WrappedView { cli: cli@, launch: launch_of(*params) };
                &&& plan_refusal(*row, *params) is None
                &&& is_config_with(plan.config, *row, *params, uid, api_key@, cli@)
                &&& plan.parallel_slots == start_slots(*params)
                &&& plan.runtime_overrides@ == record_text(wrapped_json(next))
                &&& read_stored(plan.runtime_overrides@) == Ok::<WrappedView, OverridesErrorView>(
                    next,
                )
            },
        },
{
    let backend = match &params.backend_type {
        Some(b) => b.clone(),
        None => row.backend_type.clone(),
    };
    if !str_eq(&backend, "llamacpp") {
        return Err(Reply::error(400, &"Unknown backend type: ".to_owned().concat(&backend)));
    }
    let dir = safe_repo(&row.hf_repo);
    let gguf_path = match &row.filename {
        Some(f) => dir.clone().concat("/").concat(f),
        None => {
            return Err(
                Reply::error(
                    400,
                    "No filename recorded for this model — cannot determine GGUF file path",
                ),
            );
        },
    };
    let mmproj_path = match &row.mmproj_filename {
        Some(f) => Some(dir.concat("/").concat(f)),
        None => None,
    };
    let parallel: u32 = match params.parallel {
        Some(n) => if n >= 1 {
            n
        } else {
            1
        },
        None => 1,
    };
    let gpu_type = match &params.gpu_type {
        Some(g) => GpuType::from_str(g),
        None => GpuType::from_str("none"),
    };
    let context: u64 = match row.context_length {
        Some(v) => to_unsigned(v) % 0x1_0000_0000,
        None => 0,
    };
    let config = LlamacppConfig {
        model_id: row.id.clone(),
        gguf_path,
        mmproj_path,
        gpu_type,
        gpu_layers: params.gpu_layers.unwrap_or(99),
        context_size: context as u32,
        parallel,
        extra_args: cli.to_cli_args(),
        uid,
        api_key,
    };
    let next = WrappedRuntimeJson {
        cli,
        launch: PersistedLaunchConfig {
            gpu_type: match &params.gpu_type {
                Some(g) => Some(g.clone()),
                None => None,
            },
            gpu_layers: params.gpu_layers,
            parallel: params.parallel,
        },
    };
    assert(next@ == (WrappedView {
        cli: cli@,
        launch: launch_of(*params),
    }));
    let runtime_overrides = next.to_json().unwrap();
    Ok(StartPlan { config, parallel_slots: parallel, runtime_overrides })
}

/// How a model is started, under the given user and key, and what is recorded once it is. The
/// overrides stay as they were stored.
pub fn plan_start(
    row: &ModelStartRow,
    params: &StartContainerParams,
    uid: u32,
    api_key: String,
) -> (r: Result<StartPlan, Reply>)
    requires
        row.context_length is Some,
    ensures
        match r {
            Err(reply) => plan_refusal(*row, *params) == Some(reply@),
            Ok(plan) => {
                let next = WrappedView {
                    cli: stored_settings(*row).cli,
                    launch: launch_of(*params),
                };
                &&& plan_refusal(*row, *params) is None
                &&& is_start_config(plan.config, *row, *params, uid, api_key@)
                &&& plan.parallel_slots == start_slots(*params)
                &&& plan.runtime_overrides@ == record_text(wrapped_json(next))
                &&& read_stored(plan.runtime_overrides@) == Ok::<WrappedView, OverridesErrorView>(
                    next,
                )
            },
        },
{
    let stored = match WrappedRuntimeJson::parse(&row.runtime_overrides) {
        Ok(w) => w,
        Err(_) => WrappedRuntimeJson::default(),
    };
    assert(stored@ == stored_settings(*row));
    plan_start_with(row, params, uid, api_key, stored.cli)
}

/// A backend that is started again with the launch settings that were stored when it was started
/// has the same command line, but for its key.
pub proof fn law_restart_repeats_the_start(
    row: ModelStartRow,
    p: StartContainerParams,
    again: ModelStartRow,
    q: StartContainerParams,
    c: LlamacppConfig,
    d: LlamacppConfig,
    uid: u32,
    key: Seq<char>,
    uid2: u32,
    key2: Seq<char>,
)
    requires
        is_start_config(c, row, p, uid, key),
        is_start_config(d, again, q, uid2, key2),
        read_stored(again.runtime_overrides@) == Ok::<WrappedView, OverridesErrorView>(
            WrappedView { cli: stored_settings(row).cli, launch: launch_of(p) },
        ),
        again.id@ == row.id@,
        again.hf_repo@ == row.hf_repo@,
        again.filename == row.filename,
        again.mmproj_filename == row.mmproj_filename,
        again.context_length == row.context_length,
        launch_of(q) == stored_settings(again).launch,
    ensures
        d.gguf_path@ == c.gguf_path@,
        opt_view(d.mmproj_path) == opt_view(c.mmproj_path),
        d.gpu_type == c.gpu_type,
        d.gpu_layers == c.gpu_layers,
        d.context_size == c.context_size,
        d.parallel == c.parallel,
        views(d.extra_args@) == views(c.extra_args@),
{
    assert(launch_of(q) == launch_of(p));
    assert(launch_of(q).parallel == q.parallel && launch_of(p).parallel == p.parallel);
    assert(launch_of(q).gpu_layers == q.gpu_layers && launch_of(p).gpu_layers == p.gpu_layers);
}

/// What was found out about a backend that died.
#[derive(Debug)]
pub struct CrashCapture {
    pub container_id: Option<String>,
    pub exit_code: Option<i64>,
    pub oom_killed: bool,
    pub signal: Option<String>,
}

/// What is recorded about a backend that died.
#[derive(Debug)]
pub struct CrashRecord {
    pub model_id: String,
    pub container_id: Option<String>,
    pub exit_code: Option<i64>,
    pub oom_killed: i64,
    pub signal: String,
    pub log_path: Option<String>,
}

/// What is recorded about a backend that died: the signal that was found, or else how the death
/// was discovered.
pub fn crash_record(
    model_id: &str,
    capture: CrashCapture,
    log_path: Option<String>,
    discovery_reason: &str,
) -> (r: CrashRecord)
    ensures
        r.model_id@ == model_id@,
        r.container_id == capture.container_id,
        r.exit_code == capture.exit_code,
        r.oom_killed == (if capture.oom_killed {
            1int
        } else {
            0
        }),
        r.signal@ == (match capture.signal {
            Some(s) => s@,
            None => discovery_reason@,
        }),
        r.log_path == log_path,
{
    CrashRecord {
        model_id: model_id.to_owned(),
        container_id: capture.container_id,
        exit_code: capture.exit_code,
        oom_killed: if capture.oom_killed {
            1
        } else {
            0
        },
        signal: match capture.signal {
            Some(s) => s,
            None => discovery_reason.to_owned(),
        },
        log_path,
    }
}

/// The backend of a model; the usual one where nothing is recorded.
pub fn lookup_backend_type(recorded: Option<String>) -> (r: String)
    ensures
        r@ == or_default(opt_view(recorded), "llamacpp"@),
{
    match recorded {
        Some(b) => b,
        None => "llamacpp".to_owned(),
    }
}

/// What to do at startup with a model that is marked as loaded.
#[derive(Debug, Clone, Copy, PartialEq, Eq, Structural)]
pub enum GateRecovery {
    /// Its container is running: let it serve this many requests at a time.
    Register(u32),
    /// Its container is gone: record that.
    Reconcile,
}

/// What to do at startup with a model that is marked as loaded. `running` is what Docker says of
/// its container, where it could be inspected.
pub fn recover_gate(running: Option<Option<bool>>, parallel_slots: i64) -> (r: GateRecovery)
    ensures
        r == (match running {
            Some(Some(true)) => GateRecovery::Register(
                if parallel_slots < 1 {
                    1
                } else {
                    (as_unsigned(parallel_slots) % 0x1_0000_0000) as u32
                },
            ),
            _ => GateRecovery::Reconcile,
        }),
{
    match running {
        Some(alive) => match alive {
            Some(b) => if b {
                let n: u64 = to_unsigned(parallel_slots) % 0x1_0000_0000;
                GateRecovery::Register(
                    if parallel_slots < 1 {
                        1
                    } else {
                        n as u32
                    },
                )
            } else {
                GateRecovery::Reconcile
            },
            None => GateRecovery::Reconcile,
        },
        None => GateRecovery::Reconcile,
    }
}

} // verus!
