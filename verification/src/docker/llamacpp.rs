//! The llama.cpp backend: its command line, its container and when to start or stop it.
use vstd::prelude::*;
use vstd::string::StringExecFns;
use crate::text::{cat, dec, dec_text, lower, str_eq, to_lowercase, views};

verus! {

/// The image for models on the CPU.
pub const LLAMACPP_IMAGE_CPU: &'static str = "ghcr.io/ggml-org/llama.cpp:server";

/// The image for models on a GPU.
pub const LLAMACPP_IMAGE_VULKAN: &'static str = "ghcr.io/ggml-org/llama.cpp:server-vulkan";

/// The port that the backend listens on inside its container.
pub const LLAMACPP_INTERNAL_PORT: u16 = 8080;

/// What a model runs on.
#[derive(Debug, Clone, Copy, PartialEq, Eq, Structural)]
pub enum GpuType {
    Cpu,
    Vulkan,
}

impl Default for GpuType {
    fn default() -> (r: GpuType)
        ensures
            r == GpuType::Cpu,
    {
        GpuType::Cpu
    }
}

impl GpuType {
    /// The type with the given name, whatever the case of its letters; the CPU for any other name.
    pub fn from_str(s: &str) -> (r: GpuType)
        ensures
            r == (if lower(s@) == "vulkan"@ {
                GpuType::Vulkan
            } else {
                GpuType::Cpu
            }),
            vstd::utf8::is_ascii_chars(s@) ==> lower(s@) == crate::text::ascii_lower(s@),
    {
        let lc = to_lowercase(s);
        if str_eq(&lc, "vulkan") {
            GpuType::Vulkan
        } else {
            GpuType::Cpu
        }
    }
}

/// How a backend is to be started.
#[derive(Debug, Clone)]
pub struct LlamacppConfig {
    pub model_id: String,
    /// The model file, relative to the model directory.
    pub gguf_path: String,
    /// The multimodal projector, relative to the model directory.
    pub mmproj_path: Option<String>,
    pub gpu_type: GpuType,
    /// The number of layers to put on the GPU.
    pub gpu_layers: u32,
    /// The context size of one slot.
    pub context_size: u32,
    /// The number of slots.
    pub parallel: u32,
    /// Further arguments, appended last.
    pub extra_args: Vec<String>,
    /// The user that the container runs as.
    pub uid: u32,
    /// The key that the backend asks for.
    pub api_key: String,
}

impl Default for LlamacppConfig {
    fn default() -> (r: LlamacppConfig)
        ensures
            r.model_id@ == Seq::<char>::empty(),
            r.gguf_path@ == Seq::<char>::empty(),
            r.mmproj_path is None,
            r.gpu_type == GpuType::Cpu,
            r.gpu_layers == 99,
            r.context_size == 4096,
            r.parallel == 1,
            r.extra_args@ == Seq::<String>::empty(),
            r.uid == 10000,
            r.api_key@ == Seq::<char>::empty(),
    {
        LlamacppConfig {
            model_id: String::new(),
            gguf_path: String::new(),
            mmproj_path: None,
            gpu_type: GpuType::Cpu,
            gpu_layers: 99,
            context_size: 4096,
            parallel: 1,
            extra_args: Vec::new(),
            uid: 10000,
            api_key: String::new(),
        }
    }
}

/// The part of the command line that every backend has: the model, where to listen, how many
/// layers go to the GPU, the context of all slots together, and templates for tool calls.
pub open spec fn base_args(c: LlamacppConfig, port: u16) -> Seq<Seq<char>> {
    Seq::empty().push("--model"@).push("/models/"@ + c.gguf_path@).push("--host"@).push(
        "0.0.0.0"@,
    ).push("--port"@).push(dec(port as nat)).push("-ngl"@).push(dec(c.gpu_layers as nat)).push(
        "-c"@,
    ).push(dec((c.context_size * c.parallel) as nat)).push("--jinja"@)
}

/// The slots, where there is more than one.
pub open spec fn slot_args(c: LlamacppConfig) -> Seq<Seq<char>> {
    if c.parallel > 1 {
        Seq::empty().push("-np"@).push(dec(c.parallel as nat))
    } else {
        Seq::empty()
    }
}

/// The key.
pub open spec fn key_args(c: LlamacppConfig) -> Seq<Seq<char>> {
    Seq::empty().push("--api-key"@).push(c.api_key@)
}

/// The projector, where there is one and its file exists.
pub open spec fn mmproj_args(c: LlamacppConfig, exists_on_disk: bool) -> Seq<Seq<char>> {
    if c.mmproj_path is Some && exists_on_disk {
        Seq::empty().push("--mmproj"@).push("/models/"@ + c.mmproj_path->0@)
    } else {
        Seq::empty()
    }
}

/// The command line of a backend.
pub open spec fn llamacpp_cmd(c: LlamacppConfig, exists_on_disk: bool, port: u16) -> Seq<
    Seq<char>,
> {
    base_args(c, port) + slot_args(c) + key_args(c) + mmproj_args(c, exists_on_disk) + views(
        c.extra_args@,
    )
}

/// Appends an argument.
fn push_arg(out: &mut Vec<String>, arg: String)
    ensures
        views(final(out)@) == views(old(out)@).push(arg@),
{
    out.push(arg);
    assert(views(out@) =~= views(old(out)@).push(arg@));
}

/// Appends copies of all arguments.
fn push_all(out: &mut Vec<String>, args: &Vec<String>)
    ensures
        views(final(out)@) == views(old(out)@) + views(args@),
{
    let ghost head = views(out@);
    let ghost all = views(args@);
    let mut i: usize = 0;
    assert(head + all.take(0) =~= head);
    while i < args.len()
        invariant
            all == views(args@),
            i <= args@.len(),
            views(out@) == head + all.take(i as int),
        decreases args@.len() - i,
    {
        push_arg(out, args[i].clone());
        assert(head + all.take(i + 1) =~= (head + all.take(i as int)).push(all[i as int]));
        i += 1;
    }
    assert(all.take(i as int) =~= all);
}

/// The command line of a backend. `mmproj_on_disk` says whether the projector's file exists.
pub fn build_llamacpp_cmd(config: &LlamacppConfig, mmproj_on_disk: bool, internal_port: u16) -> (r:
    Vec<String>)
    ensures
        views(r@) == llamacpp_cmd(*config, mmproj_on_disk, internal_port),
{
    let mut cmd: Vec<String> = Vec::new();
    assert(views(cmd@) =~= Seq::empty());
    assert(config.context_size * config.parallel <= u32::MAX * u32::MAX) by (nonlinear_arith)
        requires
            0 <= config.context_size <= u32::MAX,
            0 <= config.parallel <= u32::MAX,
    ;
    let context: u64 = config.context_size as u64 * config.parallel as u64;
    push_arg(&mut cmd, "--model".to_owned());
    push_arg(&mut cmd, cat("/models/", &config.gguf_path));
    push_arg(&mut cmd, "--host".to_owned());
    push_arg(&mut cmd, "0.0.0.0".to_owned());
    push_arg(&mut cmd, "--port".to_owned());
    push_arg(&mut cmd, dec_text(internal_port as u128));
    push_arg(&mut cmd, "-ngl".to_owned());
    push_arg(&mut cmd, dec_text(config.gpu_layers as u128));
    push_arg(&mut cmd, "-c".to_owned());
    push_arg(&mut cmd, dec_text(context as u128));
    push_arg(&mut cmd, "--jinja".to_owned());
    let ghost a = base_args(*config, internal_port);
    assert(views(cmd@) == a);
    if config.parallel > 1 {
        push_arg(&mut cmd, "-np".to_owned());
        push_arg(&mut cmd, dec_text(config.parallel as u128));
    }
    assert(views(cmd@) =~= a + slot_args(*config));
    push_arg(&mut cmd, "--api-key".to_owned());
    push_arg(&mut cmd, config.api_key.clone());
    assert(views(cmd@) =~= a + slot_args(*config) + key_args(*config));
    if let Some(rel) = &config.mmproj_path {
        if mmproj_on_disk {
            push_arg(&mut cmd, "--mmproj".to_owned());
            push_arg(&mut cmd, cat("/models/", rel));
        }
    }
    assert(views(cmd@) =~= a + slot_args(*config) + key_args(*config) + mmproj_args(
        *config,
        mmproj_on_disk,
    ));
    push_all(&mut cmd, &config.extra_args);
    cmd
}

/// The projector of the configuration stands in the command line before every further argument.
pub proof fn law_projector_precedes_extras(c: LlamacppConfig, port: u16)
    requires
        c.mmproj_path is Some,
    ensures
        ({
            let cmd = llamacpp_cmd(c, true, port);
            let n = cmd.len() - c.extra_args@.len();
            &&& n >= 2
            &&& cmd[n - 2] == "--mmproj"@
            &&& cmd[n - 1] == "/models/"@ + c.mmproj_path->0@
            &&& cmd.skip(n) == views(c.extra_args@)
        }),
{
    let cmd = llamacpp_cmd(c, true, port);
    let n = cmd.len() - c.extra_args@.len();
    assert(views(c.extra_args@).len() == c.extra_args@.len());
    assert(cmd.skip(n) =~= views(c.extra_args@));
}

/// The name of a model's container.
pub open spec fn container_name_of(model_id: Seq<char>) -> Seq<char> {
    "sovereign-llamacpp-"@ + model_id
}

/// The name of a model's container.
pub fn container_name(model_id: &str) -> (r: String)
    ensures
        r@ == container_name_of(model_id@),
{
    cat("sovereign-llamacpp-", model_id)
}

/// The settings of a container.
#[derive(Debug)]
pub struct ContainerSpec {
    pub name: String,
    pub image: &'static str,
    pub cmd: Vec<String>,
    /// Label names and values.
    pub labels: Vec<(String, String)>,
    /// User and group.
    pub user: String,
    /// The directory that is mounted, for reading only, at `/models`.
    pub model_source: String,
    /// Devices that are passed through under their own paths.
    pub devices: Vec<&'static str>,
    /// Groups that the container's user is added to.
    pub group_add: Vec<String>,
    /// The network that the container is attached to.
    pub network: String,
}

/// What the host offers to backends.
#[derive(Debug)]
pub struct DockerManager {
    /// The model directory.
    pub model_path: String,
    /// The network of the backends.
    pub backend_network: String,
    /// The label that marks containers as managed, and its value.
    pub managed_label: (String, String),
}

/// The image for a GPU type.
pub open spec fn image_for(g: GpuType) -> Seq<char> {
    match g {
        GpuType::Vulkan => LLAMACPP_IMAGE_VULKAN@,
        GpuType::Cpu => LLAMACPP_IMAGE_CPU@,
    }
}

/// The devices for a GPU type: the render devices, and the compute device where there is one.
pub open spec fn devices_for(g: GpuType, has_kfd: bool) -> Seq<Seq<char>> {
    match g {
        GpuType::Vulkan => if has_kfd {
            Seq::empty().push("/dev/dri"@).push("/dev/kfd"@)
        } else {
            Seq::empty().push("/dev/dri"@)
        },
        GpuType::Cpu => Seq::empty(),
    }
}

/// The views of borrowed strings.
pub open spec fn str_views(s: Seq<&str>) -> Seq<Seq<char>> {
    s.map_values(|t: &str| t@)
}

/// The labels of a model's container.
pub open spec fn labels_for(managed: (String, String), model_id: Seq<char>) -> Seq<
    (Seq<char>, Seq<char>),
> {
    Seq::empty().push((managed.0@, managed.1@)).push(
        ("sovereign-engine.model-id"@, model_id),
    ).push(("sovereign-engine.backend"@, "llamacpp"@))
}

/// The views of labels.
pub open spec fn label_views(s: Seq<(String, String)>) -> Seq<(Seq<char>, Seq<char>)> {
    s.map_values(|l: (String, String)| (l.0@, l.1@))
}

/// Whether a strictly increasing list holds exactly the groups, other than zero, that own the
/// devices.
pub open spec fn are_groups(nums: Seq<u32>, gids: Seq<u32>) -> bool {
    &&& forall|i: int, j: int| 0 <= i < j < nums.len() ==> nums[i] < nums[j]
    &&& forall|g: u32| #[trigger] nums.contains(g) <==> g != 0 && gids.contains(g)
}

/// Puts a group into a strictly increasing list, unless it is there.
fn insert_group(nums: &mut Vec<u32>, g: u32)
    requires
        forall|i: int, j: int| 0 <= i < j < old(nums)@.len() ==> old(nums)@[i] < old(nums)@[j],
    ensures
        forall|i: int, j: int| 0 <= i < j < final(nums)@.len() ==> final(nums)@[i] < final(nums)@[j],
        forall|x: u32| #[trigger] final(nums)@.contains(x) <==> x == g || old(nums)@.contains(x),
{
    let ghost before = nums@;
    let mut i: usize = 0;
    while i < nums.len() && nums[i] < g
        invariant
            *nums == *old(nums),
            i <= nums@.len(),
            forall|j: int| 0 <= j < i ==> nums@[j] < g,
        decreases nums@.len() - i,
    {
        i += 1;
    }
    if i < nums.len() && nums[i] == g {
        assert(before.contains(g)) by {
            assert(before[i as int] == g);
        }
        return ;
    }
    nums.insert(i, g);
    assert forall|x: u32| #[trigger] nums@.contains(x) <==> x == g || before.contains(x) by {
        if before.contains(x) {
            let k = choose|k: int| 0 <= k < before.len() && before[k] == x;
            if k < i {
                assert(nums@[k] == x);
            } else {
                assert(nums@[k + 1] == x);
            }
        }
        if x == g {
            assert(nums@[i as int] == g);
        }
        if nums@.contains(x) && x != g {
            let k = choose|k: int| 0 <= k < nums@.len() && nums@[k] == x;
            if k < i {
                assert(before[k] == x);
            } else {
                assert(before[k - 1] == x);
            }
        }
    }
}

/// The groups, other than zero, that own the devices: each once, in increasing order.
pub fn distinct_groups(gids: &Vec<u32>) -> (r: Vec<u32>)
    ensures
        are_groups(r@, gids@),
{
    let mut nums: Vec<u32> = Vec::new();
    let mut i: usize = 0;
    while i < gids.len()
        invariant
            i <= gids@.len(),
            are_groups(nums@, gids@.take(i as int)),
        decreases gids@.len() - i,
    {
        let ghost before = gids@.take(i as int);
        let ghost next = gids@.take(i + 1);
        let g: u32 = gids[i];
        assert(next =~= before.push(g));
        assert forall|x: u32| #[trigger] next.contains(x) <==> x == g || before.contains(x) by {
            if before.contains(x) {
                let k = choose|k: int| 0 <= k < before.len() && before[k] == x;
                assert(next[k] == x);
            }
            if x == g {
                assert(next[i as int] == g);
            }
            if next.contains(x) && x != g {
                let k = choose|k: int| 0 <= k < next.len() && next[k] == x;
                assert(before[k] == x);
            }
        }
        let ghost old_nums = nums@;
        if g != 0 {
            insert_group(&mut nums, g);
        }
        assert(are_groups(nums@, next)) by {
            assert forall|x: u32| #[trigger] nums@.contains(x) <==> x != 0 && next.contains(x) by {
                assert(old_nums.contains(x) <==> x != 0 && before.contains(x));
                assert(next.contains(x) <==> x == g || before.contains(x));
            }
        }
        i += 1;
    }
    assert(gids@.take(i as int) =~= gids@);
    nums
}

/// The groups in decimal.
pub fn gpu_device_gids(gids: &Vec<u32>) -> (r: Vec<String>)
    ensures
        exists|nums: Seq<u32>| #[trigger]
            are_groups(nums, gids@) && views(r@) == nums.map_values(|g: u32| dec(g as nat)),
{
    let nums = distinct_groups(gids);
    let mut out: Vec<String> = Vec::new();
    let mut i: usize = 0;
    while i < nums.len()
        invariant
            i == out@.len(),
            i <= nums@.len(),
            forall|j: int| 0 <= j < i ==> out@[j]@ == dec(nums@[j] as nat),
        decreases nums@.len() - i,
    {
        out.push(dec_text(nums[i] as u128));
        i += 1;
    }
    assert(views(out@) =~= nums@.map_values(|g: u32| dec(g as nat)));
    out
}

/// The address of a model's backend on the internal network.
pub open spec fn base_url_of(model_id: Seq<char>) -> Seq<char> {
    "http://"@ + container_name_of(model_id) + ":"@ + dec(8080)
}

impl DockerManager {
    /// The address of a model's backend on the internal network.
    pub fn llamacpp_base_url(&self, model_id: &str) -> (r: String)
        ensures
            r@ == base_url_of(model_id@),
    {
        "http://".to_owned().concat(&container_name(model_id)).concat(":").concat(
            &dec_text(LLAMACPP_INTERNAL_PORT as u128),
        )
    }

    /// The address that says whether a model's backend is healthy.
    pub fn llamacpp_health_url(&self, model_id: &str) -> (r: String)
        ensures
            r@ == base_url_of(model_id@) + "/health"@,
    {
        self.llamacpp_base_url(model_id).concat("/health")
    }

    /// The settings of a model's container.
    pub fn container_spec(
        &self,
        config: &LlamacppConfig,
        mmproj_on_disk: bool,
        has_kfd: bool,
        gids: &Vec<u32>,
    ) -> (r: ContainerSpec)
        ensures
            r.name@ == container_name_of(config.model_id@),
            r.image@ == image_for(config.gpu_type),
            views(r.cmd@) == llamacpp_cmd(*config, mmproj_on_disk, LLAMACPP_INTERNAL_PORT),
            label_views(r.labels@) == labels_for(self.managed_label, config.model_id@),
            r.user@ == dec(config.uid as nat) + ":"@ + dec(config.uid as nat),
            r.model_source@ == self.model_path@,
            str_views(r.devices@) == devices_for(config.gpu_type, has_kfd),
            config.gpu_type == GpuType::Cpu ==> r.group_add@.len() == 0,
            config.gpu_type == GpuType::Vulkan ==> exists|nums: Seq<u32>| #[trigger]
                are_groups(nums, gids@) && views(r.group_add@) == nums.map_values(
                    |g: u32| dec(g as nat),
                ),
            r.network@ == self.backend_network@,
    {
        let image = match config.gpu_type {
            GpuType::Vulkan => LLAMACPP_IMAGE_VULKAN,
            GpuType::Cpu => LLAMACPP_IMAGE_CPU,
        };
        let uid = dec_text(config.uid as u128);
        let user = uid.clone().concat(":").concat(&uid);
        let mut labels: Vec<(String, String)> = Vec::new();
        labels.push((self.managed_label.0.clone(), self.managed_label.1.clone()));
        labels.push(("sovereign-engine.model-id".to_owned(), config.model_id.clone()));
        labels.push(("sovereign-engine.backend".to_owned(), "llamacpp".to_owned()));
        assert(label_views(labels@) =~= labels_for(self.managed_label, config.model_id@));
        let mut devices: Vec<&'static str> = Vec::new();
        let mut group_add: Vec<String> = Vec::new();
        match config.gpu_type {
            GpuType::Vulkan => {
                devices.push("/dev/dri");
                if has_kfd {
                    devices.push("/dev/kfd");
                }
                group_add = gpu_device_gids(gids);
            },
            GpuType::Cpu => {},
        }
        assert(str_views(devices@) =~= devices_for(config.gpu_type, has_kfd));
        ContainerSpec {
            name: container_name(&config.model_id),
            image,
            cmd: build_llamacpp_cmd(config, mmproj_on_disk, LLAMACPP_INTERNAL_PORT),
            labels,
            user,
            model_source: self.model_path.clone(),
            devices,
            group_add,
            network: self.backend_network.clone(),
        }
    }
}

/// What is known of a container.
#[derive(Debug, Clone, Copy, PartialEq, Eq, Structural)]
pub enum ContainerPresence {
    Missing,
    Stopped,
    Running,
}

/// What to do to have a backend running.
#[derive(Debug, Clone, Copy, PartialEq, Eq, Structural)]
pub enum StartAction {
    /// It is running already.
    Keep,
    /// Remove what is left of an earlier one, then create and start it.
    Replace,
    /// Create and start it.
    Create,
}

/// What to do to have a backend gone.
#[derive(Debug, Clone, Copy, PartialEq, Eq, Structural)]
pub enum StopAction {
    /// It is gone already.
    Nothing,
    /// Remove it.
    Remove,
    /// Stop it, within `STOP_TIMEOUT_SECS`, and remove it.
    StopAndRemove,
}

/// How long a backend may take to stop.
pub const STOP_TIMEOUT_SECS: i32 = 30;

/// What is known of a container: whether it could be inspected, and whether it then runs.
pub fn container_presence(inspected: Option<Option<bool>>) -> (r: ContainerPresence)
    ensures
        r == (match inspected {
            None => ContainerPresence::Missing,
            Some(Some(true)) => ContainerPresence::Running,
            Some(_) => ContainerPresence::Stopped,
        }),
{
    match inspected {
        None => ContainerPresence::Missing,
        Some(running) => match running {
            Some(b) => if b {
                ContainerPresence::Running
            } else {
                ContainerPresence::Stopped
            },
            None => ContainerPresence::Stopped,
        },
    }
}

/// What to do to have a backend running.
pub fn start_action(p: ContainerPresence) -> (r: StartAction)
    ensures
        r == (match p {
            ContainerPresence::Running => StartAction::Keep,
            ContainerPresence::Stopped => StartAction::Replace,
            ContainerPresence::Missing => StartAction::Create,
        }),
{
    match p {
        ContainerPresence::Running => StartAction::Keep,
        ContainerPresence::Stopped => StartAction::Replace,
        ContainerPresence::Missing => StartAction::Create,
    }
}

/// What to do to have a backend gone.
pub fn stop_action(p: ContainerPresence) -> (r: StopAction)
    ensures
        r == (match p {
            ContainerPresence::Running => StopAction::StopAndRemove,
            ContainerPresence::Stopped => StopAction::Remove,
            ContainerPresence::Missing => StopAction::Nothing,
        }),
{
    match p {
        ContainerPresence::Running => StopAction::StopAndRemove,
        ContainerPresence::Stopped => StopAction::Remove,
        ContainerPresence::Missing => StopAction::Nothing,
    }
}

} // verus!
