//! What the command line and the container of a backend say.
use vstd::prelude::*;
use crate::docker::llamacpp::{
    base_url_of, container_name_of, devices_for, image_for, labels_for, llamacpp_cmd, GpuType,
    LlamacppConfig, LLAMACPP_INTERNAL_PORT,
};
use crate::text::{dec, views};
use crate::text_laws::{decimal_value, law_decimal_text};

verus! {

/// What follows the first occurrence of a flag in a command line.
pub open spec fn flag_value(cmd: Seq<Seq<char>>, flag: Seq<char>) -> Option<Seq<char>>
    decreases cmd.len(),
{
    if cmd.len() < 2 {
        None
    } else if cmd[0] == flag {
        Some(cmd[1])
    } else {
        flag_value(cmd.skip(1), flag)
    }
}

proof fn lemma_flag_at(cmd: Seq<Seq<char>>, flag: Seq<char>, i: int)
    requires
        0 <= i < cmd.len() - 1,
        cmd[i] == flag,
        forall|j: int| 0 <= j < i ==> cmd[j] != flag,
    ensures
        flag_value(cmd, flag) == Some(cmd[i + 1]),
    decreases i,
{
    if i > 0 {
        assert(cmd[0] != flag);
        assert(cmd.skip(1)[i - 1] == cmd[i]);
        assert(cmd.skip(1)[i] == cmd[i + 1]);
        assert forall|j: int| 0 <= j < i - 1 implies cmd.skip(1)[j] != flag by {
            assert(cmd.skip(1)[j] == cmd[j + 1]);
        }
        lemma_flag_at(cmd.skip(1), flag, i - 1);
    }
}

proof fn lemma_flag_missing(cmd: Seq<Seq<char>>, flag: Seq<char>)
    requires
        forall|j: int| 0 <= j < cmd.len() - 1 ==> cmd[j] != flag,
    ensures
        flag_value(cmd, flag) is None,
    decreases cmd.len(),
{
    if cmd.len() >= 2 {
        assert(cmd[0] != flag);
        assert forall|j: int| 0 <= j < cmd.skip(1).len() - 1 implies cmd.skip(1)[j] != flag by {
            assert(cmd.skip(1)[j] == cmd[j + 1]);
        }
        lemma_flag_missing(cmd.skip(1), flag);
    }
}

/// The number of slots that the beginning of a command line, up to the key, asks for: one where it
/// does not say.
pub open spec fn slots_of(cmd: Seq<Seq<char>>) -> int {
    match flag_value(cmd.take(13), "-np"@) {
        Some(n) => decimal_value(n),
        None => 1,
    }
}

proof fn lemma_flags()
    ensures
        "--model"@.len() == 7 && "--model"@[0] == '-' && "--model"@[2] == 'm',
        "--host"@.len() == 6 && "--host"@[0] == '-' && "--host"@[2] == 'h',
        "--port"@.len() == 6 && "--port"@[0] == '-' && "--port"@[2] == 'p',
        "-ngl"@.len() == 4 && "-ngl"@[0] == '-',
        "-c"@.len() == 2 && "-c"@[0] == '-',
        "-np"@.len() == 3 && "-np"@[0] == '-',
        "--jinja"@.len() == 7 && "--jinja"@[0] == '-' && "--jinja"@[2] == 'j',
        "--api-key"@.len() == 9 && "--api-key"@[0] == '-',
        "--mmproj"@.len() == 8 && "--mmproj"@[0] == '-',
        "/models/"@.len() == 8 && "/models/"@[0] == '/',
        "0.0.0.0"@.len() == 7 && "0.0.0.0"@[0] == '0',
{
    reveal_strlit("--model");
    reveal_strlit("--host");
    reveal_strlit("--port");
    reveal_strlit("-ngl");
    reveal_strlit("-c");
    reveal_strlit("-np");
    reveal_strlit("--jinja");
    reveal_strlit("--api-key");
    reveal_strlit("--mmproj");
    reveal_strlit("/models/");
    reveal_strlit("0.0.0.0");
}

/// The beginning of every command line.
proof fn lemma_beginning(c: LlamacppConfig, on_disk: bool, port: u16)
    ensures
        ({
            let cmd = llamacpp_cmd(c, on_disk, port);
            let k: int = if c.parallel > 1 {
                13
            } else {
                11
            };
            &&& cmd.len() >= k + 2
            &&& cmd[0] == "--model"@
            &&& cmd[1] == "/models/"@ + c.gguf_path@
            &&& cmd[2] == "--host"@
            &&& cmd[3] == "0.0.0.0"@
            &&& cmd[4] == "--port"@
            &&& cmd[5] == dec(port as nat)
            &&& cmd[6] == "-ngl"@
            &&& cmd[7] == dec(c.gpu_layers as nat)
            &&& cmd[8] == "-c"@
            &&& cmd[9] == dec((c.context_size * c.parallel) as nat)
            &&& cmd[10] == "--jinja"@
            &&& c.parallel > 1 ==> cmd[11] == "-np"@ && cmd[12] == dec(c.parallel as nat)
            &&& cmd[k] == "--api-key"@
            &&& cmd[k + 1] == c.api_key@
        }),
{
}

/// Every slot of a backend has the configured context: the context of the whole backend, which it
/// divides among its slots, is that of one slot times their number.
pub proof fn law_every_slot_has_its_context(c: LlamacppConfig, on_disk: bool, port: u16)
    requires
        c.parallel >= 1,
    ensures
        ({
            let cmd = llamacpp_cmd(c, on_disk, port);
            let n = decimal_value(flag_value(cmd, "-c"@)->0);
            &&& flag_value(cmd, "-c"@) is Some
            &&& slots_of(cmd) == c.parallel
            &&& n == c.context_size * slots_of(cmd)
            &&& n / slots_of(cmd) == c.context_size
            &&& n % slots_of(cmd) == 0
        }),
{
    lemma_flags();
    lemma_beginning(c, on_disk, port);
    law_decimal_text(port as nat);
    law_decimal_text(c.gpu_layers as nat);
    law_decimal_text(c.parallel as nat);
    let n = c.context_size * c.parallel;
    assert(0 <= n) by (nonlinear_arith)
        requires
            n == c.context_size * c.parallel,
            c.context_size >= 0,
            c.parallel >= 0,
    ;
    law_decimal_text(n as nat);
    let cmd = llamacpp_cmd(c, on_disk, port);
    assert('0' <= cmd[5][0] && '0' <= cmd[7][0] && '0' <= cmd[9][0]);
    lemma_flag_at(cmd, "-c"@, 8);
    let head = cmd.take(13);
    assert(head.len() == 13);
    assert forall|j: int| 0 <= j < 11 implies head[j] != "-np"@ by {
        assert(head[j] == cmd[j]);
    }
    if c.parallel > 1 {
        assert(head[11] == cmd[11] && head[12] == cmd[12]);
        lemma_flag_at(head, "-np"@, 11);
    } else {
        assert(head[11] == cmd[11]);
        lemma_flag_missing(head, "-np"@);
    }
    let p = c.parallel as int;
    let x = c.context_size as int;
    assert((x * p) / p == x && (x * p) % p == 0) by (nonlinear_arith)
        requires
            p >= 1,
            x >= 0,
    ;
}

/// Every other setting stands behind its own flag: the model's file, below the directory that is
/// mounted, the port, the number of layers on the GPU, and the key.
pub proof fn law_settings_stand_behind_their_flags(c: LlamacppConfig, on_disk: bool, port: u16)
    ensures
        ({
            let cmd = llamacpp_cmd(c, on_disk, port);
            &&& flag_value(cmd, "--model"@) == Some("/models/"@ + c.gguf_path@)
            &&& flag_value(cmd, "--host"@) == Some("0.0.0.0"@)
            &&& flag_value(cmd, "--port"@) is Some
            &&& decimal_value(flag_value(cmd, "--port"@)->0) == port
            &&& flag_value(cmd, "-ngl"@) is Some
            &&& decimal_value(flag_value(cmd, "-ngl"@)->0) == c.gpu_layers
            &&& flag_value(cmd, "--api-key"@) == Some(c.api_key@)
            &&& cmd.take(11).contains("--jinja"@)
        }),
{
    lemma_flags();
    lemma_beginning(c, on_disk, port);
    law_decimal_text(port as nat);
    law_decimal_text(c.gpu_layers as nat);
    law_decimal_text(c.parallel as nat);
    assert(0 <= c.context_size * c.parallel) by (nonlinear_arith)
        requires
            c.context_size >= 0,
            c.parallel >= 0,
    ;
    law_decimal_text((c.context_size * c.parallel) as nat);
    let cmd = llamacpp_cmd(c, on_disk, port);
    assert('0' <= cmd[5][0] && '0' <= cmd[7][0] && '0' <= cmd[9][0]);
    lemma_flag_at(cmd, "--model"@, 0);
    lemma_flag_at(cmd, "--host"@, 2);
    lemma_flag_at(cmd, "--port"@, 4);
    lemma_flag_at(cmd, "-ngl"@, 6);
    if c.parallel > 1 {
        assert('0' <= cmd[12][0]);
        lemma_flag_at(cmd, "--api-key"@, 13);
    } else {
        lemma_flag_at(cmd, "--api-key"@, 11);
    }
    assert(cmd.take(11)[10] == "--jinja"@);
}

/// A backend is called where it listens: at its container's name, and at the port that stands in
/// its command line.
pub proof fn law_backends_are_called_where_they_listen(c: LlamacppConfig, on_disk: bool)
    ensures
        ({
            let cmd = llamacpp_cmd(c, on_disk, LLAMACPP_INTERNAL_PORT);
            let url = base_url_of(c.model_id@);
            let head = "http://"@ + container_name_of(c.model_id@) + ":"@;
            &&& url.take(head.len() as int) == head
            &&& flag_value(cmd, "--port"@) is Some
            &&& url.skip(head.len() as int) == flag_value(cmd, "--port"@)->0
        }),
{
    law_settings_stand_behind_their_flags(c, on_disk, LLAMACPP_INTERNAL_PORT);
    lemma_flags();
    lemma_beginning(c, on_disk, LLAMACPP_INTERNAL_PORT);
    let cmd = llamacpp_cmd(c, on_disk, LLAMACPP_INTERNAL_PORT);
    lemma_flag_at(cmd, "--port"@, 4);
    let url = base_url_of(c.model_id@);
    let head = "http://"@ + container_name_of(c.model_id@) + ":"@;
    assert(url.take(head.len() as int) =~= head);
    assert(url.skip(head.len() as int) =~= dec(8080));
}

/// Further arguments come last, as they are. A projector is named exactly where there is one and
/// its file exists: two arguments more, and none otherwise.
pub proof fn law_extras_come_last(c: LlamacppConfig, port: u16)
    ensures
        ({
            let with = llamacpp_cmd(c, true, port);
            let without = llamacpp_cmd(c, false, port);
            let n = c.extra_args@.len() as int;
            &&& with.skip(with.len() - n) == views(c.extra_args@)
            &&& without.skip(without.len() - n) == views(c.extra_args@)
            &&& c.mmproj_path is None ==> with == without
            &&& c.mmproj_path is Some ==> {
                &&& with.len() == without.len() + 2
                &&& with[without.len() - n] == "--mmproj"@
                &&& with[without.len() - n + 1] == "/models/"@ + c.mmproj_path->0@
                &&& with.take(without.len() - n) == without.take(without.len() - n)
            }
        }),
{
    let with = llamacpp_cmd(c, true, port);
    let without = llamacpp_cmd(c, false, port);
    let n = c.extra_args@.len() as int;
    assert(views(c.extra_args@).len() == n);
    assert(with.skip(with.len() - n) =~= views(c.extra_args@));
    assert(without.skip(without.len() - n) =~= views(c.extra_args@));
    if c.mmproj_path is Some {
        assert(with.take(without.len() - n) =~= without.take(without.len() - n));
    } else {
        assert(with =~= without);
    }
}

/// Different models have different containers.
pub proof fn law_containers_differ(a: Seq<char>, b: Seq<char>)
    ensures
        container_name_of(a) == container_name_of(b) ==> a == b,
{
    let n = "sovereign-llamacpp-"@.len() as int;
    assert(container_name_of(a).skip(n) =~= a);
    assert(container_name_of(b).skip(n) =~= b);
}

/// A model on a GPU has another image than one on the CPU and is given the render devices, and the
/// compute device where there is one; a model on the CPU is given no device.
pub proof fn law_devices_go_with_the_gpu(has_kfd: bool)
    ensures
        image_for(GpuType::Vulkan) != image_for(GpuType::Cpu),
        devices_for(GpuType::Cpu, has_kfd).len() == 0,
        devices_for(GpuType::Vulkan, has_kfd).contains("/dev/dri"@),
        devices_for(GpuType::Vulkan, has_kfd).contains("/dev/kfd"@) <==> has_kfd,
        devices_for(GpuType::Vulkan, has_kfd).len() == (if has_kfd {
            2int
        } else {
            1int
        }),
{
    reveal_strlit("ghcr.io/ggml-org/llama.cpp:server");
    reveal_strlit("ghcr.io/ggml-org/llama.cpp:server-vulkan");
    assert("ghcr.io/ggml-org/llama.cpp:server"@.len() == 33);
    assert("ghcr.io/ggml-org/llama.cpp:server-vulkan"@.len() == 40);
    reveal_strlit("/dev/dri");
    reveal_strlit("/dev/kfd");
    assert("/dev/dri"@[5] == 'd' && "/dev/kfd"@[5] == 'k');
    let d = devices_for(GpuType::Vulkan, has_kfd);
    assert(d[0] == "/dev/dri"@);
    if has_kfd {
        assert(d[1] == "/dev/kfd"@);
    }
}

/// A container is marked as managed, and labelled with its model and its backend.
pub proof fn law_labels(managed: (String, String), model_id: Seq<char>)
    ensures
        labels_for(managed, model_id).contains((managed.0@, managed.1@)),
        labels_for(managed, model_id).contains(("sovereign-engine.model-id"@, model_id)),
        labels_for(managed, model_id).contains(("sovereign-engine.backend"@, "llamacpp"@)),
{
    let l = labels_for(managed, model_id);
    assert(l[0] == (managed.0@, managed.1@));
    assert(l[1] == ("sovereign-engine.model-id"@, model_id));
    assert(l[2] == ("sovereign-engine.backend"@, "llamacpp"@));
}

} // verus!
