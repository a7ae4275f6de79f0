//! What the estimate of a model's memory amounts to.
use vstd::prelude::*;
use crate::api::event_laws::number_under;
use crate::api::gguf::GgufMetadata;
use crate::api::kv::{
    aggregate_bytes, as_signed, as_unsigned, capped, derived_dim, dimension_bytes, estimate_fits,
    gpu_free, gpu_total, gpu_used, has_dimensions, kv_aggregates, kv_cache_mb, layers_sum,
    params_of, swa_tokens, vram_reply, KvCacheParams, ModelMetadataRow,
};
use crate::json::{lemma_lookup_push, JsonView};
use crate::metrics::GpuMemoryInfo;
use crate::text_laws::law_decimal_text;

verus! {

/// The free memory of all GPUs together.
pub open spec fn free_memory(gpus: Seq<GpuMemoryInfo>) -> int
    decreases gpus.len(),
{
    if gpus.len() == 0 {
        0
    } else {
        free_memory(gpus.drop_last()) + gpus.last().free_mb
    }
}

/// The memory of all GPUs together.
pub open spec fn all_memory(gpus: Seq<GpuMemoryInfo>) -> int
    decreases gpus.len(),
{
    if gpus.len() == 0 {
        0
    } else {
        all_memory(gpus.drop_last()) + gpus.last().total_mb
    }
}

/// The memory in use on all GPUs together.
pub open spec fn used_memory(gpus: Seq<GpuMemoryInfo>) -> int
    decreases gpus.len(),
{
    if gpus.len() == 0 {
        0
    } else {
        used_memory(gpus.drop_last()) + gpus.last().used_mb
    }
}

proof fn lemma_sums(gpus: Seq<GpuMemoryInfo>)
    ensures
        gpu_free(gpus) == free_memory(gpus),
        gpu_total(gpus) == all_memory(gpus),
        gpu_used(gpus) == used_memory(gpus),
        free_memory(gpus) >= 0,
        all_memory(gpus) >= 0,
        used_memory(gpus) >= 0,
    decreases gpus.len(),
{
    if gpus.len() > 0 {
        lemma_sums(gpus.drop_last());
    }
}

proof fn lemma_number(n: nat)
    ensures
        crate::text_laws::signed_value(crate::text::dec(n)) == n,
{
    law_decimal_text(n);
    assert('0' <= crate::text::dec(n)[0]);
}

proof fn lemma_keys()
    ensures
        "model_weights_mb"@.len() == 16,
        "kv_cache_mb"@.len() == 11,
        "overhead_mb"@.len() == 11,
        "kv_cache_mb"@ != "overhead_mb"@,
        "total_mb"@.len() == 8,
        "gpu_total_mb"@.len() == 12,
        "gpu_used_mb"@.len() == 11,
        "gpu_free_mb"@.len() == 11,
        "gpu_used_mb"@ != "gpu_free_mb"@,
        "gpu_used_mb"@ != "kv_cache_mb"@,
        "gpu_used_mb"@ != "overhead_mb"@,
        "gpu_free_mb"@ != "kv_cache_mb"@,
        "gpu_free_mb"@ != "overhead_mb"@,
        "fits"@.len() == 4,
{
    reveal_strlit("model_weights_mb");
    reveal_strlit("kv_cache_mb");
    reveal_strlit("overhead_mb");
    reveal_strlit("total_mb");
    reveal_strlit("gpu_total_mb");
    reveal_strlit("gpu_used_mb");
    reveal_strlit("gpu_free_mb");
    reveal_strlit("fits");
    assert("kv_cache_mb"@[0] == 'k' && "overhead_mb"@[0] == 'o' && "gpu_used_mb"@[0] == 'g');
    assert("gpu_free_mb"@[0] == 'g' && "gpu_used_mb"@[4] == 'u' && "gpu_free_mb"@[4] == 'f');
}

/// A size is never below zero.
proof fn lemma_cache_size(p: KvCacheParams)
    ensures
        kv_cache_mb(p) >= 0,
{
    if p.kv_bytes_per_token_global is Some {
        let g = as_unsigned(p.kv_bytes_per_token_global->0);
        let c = p.context_size as int;
        assert(g * c >= 0) by (nonlinear_arith)
            requires
                g >= 0,
                c >= 0,
        ;
        let s = match p.kv_bytes_per_token_swa {
            Some(b) => {
                let u = as_unsigned(b);
                let t = swa_tokens(p);
                assert(u * t >= 0) by (nonlinear_arith)
                    requires
                        u >= 0,
                        t >= 0,
                ;
                capped(u * t)
            },
            None => 0,
        };
        let x = capped(capped(g * c) + s);
        let n = p.parallel as int;
        assert(x * n >= 0) by (nonlinear_arith)
            requires
                x >= 0,
                n >= 0,
        ;
        assert(aggregate_bytes(p) == capped(x * n));
    } else if has_dimensions(p) {
        let a = as_unsigned(p.n_layers->0);
        let b = as_unsigned(p.n_kv_heads->0);
        let e = as_unsigned(p.embedding_length->0);
        let h = p.n_heads->0 as int;
        assert(e / h >= 0) by (nonlinear_arith)
            requires
                e >= 0,
                h > 0,
        ;
        let d = derived_dim(p);
        assert(d >= 0);
        let c = p.context_size as int;
        let n = p.parallel as int;
        assert(a * b >= 0) by (nonlinear_arith)
            requires
                a >= 0,
                b >= 0,
        ;
        let ab = a * b;
        assert(ab * d >= 0) by (nonlinear_arith)
            requires
                ab >= 0,
                d >= 0,
        ;
        let abd = ab * d;
        assert(abd * c >= 0) by (nonlinear_arith)
            requires
                abd >= 0,
                c >= 0,
        ;
        let abdc = abd * c;
        assert(abdc * n >= 0) by (nonlinear_arith)
            requires
                abdc >= 0,
                n >= 0,
        ;
        assert(dimension_bytes(p) == abdc * n * 2);
    }
}

/// The sum of the parts is a size.
proof fn lemma_total(row: ModelMetadataRow, parallel: Option<u32>)
    ensures
        ({
            let total = as_unsigned(row.size_bytes) / 1048576 + kv_cache_mb(
                params_of(row, parallel),
            ) + 200;
            total > 0 && crate::text_laws::signed_value(crate::text::dec(total as nat)) == total
        }),
{
    lemma_cache_size(params_of(row, parallel));
    let total = as_unsigned(row.size_bytes) / 1048576 + kv_cache_mb(params_of(row, parallel)) + 200;
    lemma_number(total as nat);
}

/// What is needed does not depend on the GPUs.
proof fn lemma_same_total(
    row: ModelMetadataRow,
    parallel: Option<u32>,
    a: Seq<GpuMemoryInfo>,
    b: Seq<GpuMemoryInfo>,
)
    requires
        row.context_length is Some,
    ensures
        number_under(vram_reply(Some(row), parallel, a).body, "total_mb"@) == number_under(
            vram_reply(Some(row), parallel, b).body,
            "total_mb"@,
        ),
        number_under(vram_reply(Some(row), parallel, a).body, "total_mb"@)->0 > 0,
{
    broadcast use lemma_lookup_push;

    lemma_keys();
    lemma_total(row, parallel);
}

/// Whether an answer says that the model fits.
pub open spec fn says_it_fits(body: JsonView) -> bool {
    body.field("fits"@) == Some(JsonView::Bool(true))
}

/// An estimate adds up: what is needed in all is the weights, the cache and the overhead, each
/// under its own name; beside it stand the sums over all GPUs.
pub proof fn law_estimate_adds_up(
    row: ModelMetadataRow,
    parallel: Option<u32>,
    gpus: Seq<GpuMemoryInfo>,
)
    requires
        row.context_length is Some,
    ensures
        ({
            let r = vram_reply(Some(row), parallel, gpus);
            let weights = number_under(r.body, "model_weights_mb"@);
            let cache = number_under(r.body, "kv_cache_mb"@);
            let overhead = number_under(r.body, "overhead_mb"@);
            let total = number_under(r.body, "total_mb"@);
            &&& r.status == 200
            &&& weights is Some && cache is Some && overhead is Some && total is Some
            &&& total->0 == weights->0 + cache->0 + overhead->0
            &&& overhead->0 == 200
            &&& row.size_bytes >= 0 ==> weights->0 * 1048576 <= row.size_bytes < (weights->0 + 1)
                * 1048576
            &&& weights->0 >= 0 && cache->0 >= 0
            &&& cache->0 == kv_cache_mb(params_of(row, parallel))
            &&& number_under(r.body, "gpu_total_mb"@) == Some(all_memory(gpus))
            &&& number_under(r.body, "gpu_used_mb"@) == Some(used_memory(gpus))
            &&& number_under(r.body, "gpu_free_mb"@) == Some(free_memory(gpus))
        }),
{
    broadcast use lemma_lookup_push;

    lemma_keys();
    lemma_sums(gpus);
    let weights = as_unsigned(row.size_bytes) / 1048576;
    let cache = kv_cache_mb(params_of(row, parallel));
    lemma_cache_size(params_of(row, parallel));
    lemma_number(weights as nat);
    lemma_number(cache as nat);
    lemma_number(200);
    lemma_number((weights + cache + 200) as nat);
    lemma_number(all_memory(gpus) as nat);
    lemma_number(used_memory(gpus) as nat);
    lemma_number(free_memory(gpus) as nat);
}

/// A model fits exactly where there is a GPU and what is needed in all is free on the GPUs
/// together; memory that is in use does not count.
pub proof fn law_fits_means_that_it_is_free(
    row: ModelMetadataRow,
    parallel: Option<u32>,
    gpus: Seq<GpuMemoryInfo>,
)
    requires
        row.context_length is Some,
    ensures
        ({
            let r = vram_reply(Some(row), parallel, gpus);
            let total = number_under(r.body, "total_mb"@);
            &&& total is Some
            &&& says_it_fits(r.body) ==> total->0 <= free_memory(gpus)
            &&& total->0 > free_memory(gpus) ==> r.body.field("fits"@) == Some(
                JsonView::Bool(false),
            )
            &&& total->0 <= free_memory(gpus) && all_memory(gpus) > 0 ==> says_it_fits(r.body)
            &&& all_memory(gpus) == 0 || free_memory(gpus) == 0 ==> r.body.field("fits"@) == Some(
                JsonView::Bool(false),
            )
        }),
{
    broadcast use lemma_lookup_push;

    lemma_keys();
    lemma_sums(gpus);
    law_estimate_adds_up(row, parallel, gpus);
    lemma_total(row, parallel);
}

/// Using up memory of the GPUs never makes a model fit that did not fit before.
pub proof fn law_less_free_memory_never_helps(
    row: ModelMetadataRow,
    parallel: Option<u32>,
    before: Seq<GpuMemoryInfo>,
    after: Seq<GpuMemoryInfo>,
)
    requires
        row.context_length is Some,
        before.len() == after.len(),
        forall|i: int|
            0 <= i < before.len() ==> {
                &&& (#[trigger] after[i]).total_mb == before[i].total_mb
                &&& after[i].free_mb <= before[i].free_mb
            },
    ensures
        says_it_fits(vram_reply(Some(row), parallel, after).body) ==> says_it_fits(
            vram_reply(Some(row), parallel, before).body,
        ),
{
    law_fits_means_that_it_is_free(row, parallel, before);
    law_fits_means_that_it_is_free(row, parallel, after);
    lemma_total(row, parallel);
    lemma_same_total(row, parallel, before, after);
    lemma_less_free(before, after);
    lemma_sums(before);
    lemma_sums(after);
}

proof fn lemma_less_free(before: Seq<GpuMemoryInfo>, after: Seq<GpuMemoryInfo>)
    requires
        before.len() == after.len(),
        forall|i: int|
            0 <= i < before.len() ==> {
                &&& (#[trigger] after[i]).total_mb == before[i].total_mb
                &&& after[i].free_mb <= before[i].free_mb
            },
    ensures
        free_memory(after) <= free_memory(before),
        all_memory(after) == all_memory(before),
    decreases before.len(),
{
    if before.len() > 0 {
        let a = after.drop_last();
        let b = before.drop_last();
        assert forall|i: int| 0 <= i < b.len() implies {
            &&& (#[trigger] a[i]).total_mb == b[i].total_mb
            &&& a[i].free_mb <= b[i].free_mb
        } by {
            assert(a[i] == after[i]);
        }
        lemma_less_free(b, a);
        assert(after[after.len() - 1].free_mb <= before[before.len() - 1].free_mb);
    }
}

/// An unknown model, and one without a context length, are not estimated.
pub proof fn law_no_estimate(
    row: ModelMetadataRow,
    parallel: Option<u32>,
    gpus: Seq<GpuMemoryInfo>,
)
    ensures
        vram_reply(None, parallel, gpus).status == 404,
        row.context_length is None ==> vram_reply(Some(row), parallel, gpus).status == 400,
        row.context_length is Some ==> vram_reply(Some(row), parallel, gpus).status == 200,
{
}

/// A stored model is estimated with its own dimensions, for the slots that are asked for and at
/// least one.
pub proof fn law_estimates_use_the_stored_model(row: ModelMetadataRow, parallel: Option<u32>)
    requires
        row.context_length is Some && row.context_length->0 >= 0,
    ensures
        ({
            let p = params_of(row, parallel);
            &&& p.n_layers == row.n_layers
            &&& p.n_heads == row.n_heads
            &&& p.n_kv_heads == row.n_kv_heads
            &&& p.embedding_length == row.embedding_length
            &&& p.key_length == row.key_length
            &&& p.value_length == row.value_length
            &&& p.sliding_window == row.sliding_window
            &&& p.kv_bytes_per_token_global == row.kv_bytes_per_token_global
            &&& p.kv_bytes_per_token_swa == row.kv_bytes_per_token_swa
            &&& p.context_size == row.context_length->0
            &&& p.parallel >= 1
            &&& parallel is Some && parallel->0 >= 1 ==> p.parallel == parallel->0
            &&& parallel is None ==> p.parallel == 1
        }),
{
}

/// The cache holds, for each slot, token, layer and kv head, a key and a value of two bytes for
/// each of their elements. A length that is not given is the head's share of the embedding.
pub proof fn law_cache_holds_keys_and_values(
    p: KvCacheParams,
    layers: int,
    kv_heads: int,
    key: int,
    value: int,
)
    requires
        p.n_layers is Some && p.n_layers->0 == layers && layers >= 0,
        p.n_kv_heads is Some && p.n_kv_heads->0 == kv_heads && kv_heads >= 0,
        p.n_heads is Some && p.n_heads->0 > 0,
        p.embedding_length is Some && p.embedding_length->0 >= 0,
        key >= 0 && value >= 0,
        match p.key_length {
            Some(k) => k == key,
            None => key * p.n_heads->0 <= p.embedding_length->0 < (key + 1) * p.n_heads->0,
        },
        match p.value_length {
            Some(v) => v == value,
            None => value * p.n_heads->0 <= p.embedding_length->0 < (value + 1) * p.n_heads->0,
        },
    ensures
        has_dimensions(p),
        dimension_bytes(p) == (p.parallel * p.context_size) * (layers * kv_heads) * (2 * key + 2
            * value),
        p.kv_bytes_per_token_global is None ==> ({
            let mb = kv_cache_mb(p);
            mb * 1048576 <= dimension_bytes(p) < (mb + 1) * 1048576
        }),
{
    let h = p.n_heads->0 as int;
    let e = p.embedding_length->0 as int;
    if p.key_length is None {
        lemma_share(e, h, key);
    }
    if p.value_length is None {
        lemma_share(e, h, value);
    }
    let d = key + value;
    let c = p.context_size as int;
    let n = p.parallel as int;
    assert(dimension_bytes(p) == layers * kv_heads * d * c * n * 2);
    assert(layers * kv_heads * d * c * n * 2 == (n * c) * (layers * kv_heads) * (2 * key + 2
        * value)) by (nonlinear_arith)
        requires
            d == key + value,
    ;
}

proof fn lemma_share(e: int, h: int, k: int)
    requires
        h > 0,
        e >= 0,
        k * h <= e < (k + 1) * h,
    ensures
        e / h == k,
{
    assert(e / h == k) by (nonlinear_arith)
        requires
            h > 0,
            k * h <= e < (k + 1) * h,
    ;
}

/// The cache of a model whose layers differ: the layers with full context hold all tokens, those
/// with a sliding window at most as many as the window. Both hold their bytes for each slot.
pub proof fn law_windows_hold_fewer_tokens(p: KvCacheParams, global: int, swa: int, tokens: int)
    requires
        p.kv_bytes_per_token_global is Some && p.kv_bytes_per_token_global->0 == global && global
            >= 0,
        match p.kv_bytes_per_token_swa {
            Some(b) => b == swa && swa >= 0,
            None => swa == 0,
        },
        match p.sliding_window {
            Some(w) => w >= 0 && tokens == (if w < p.context_size {
                w as int
            } else {
                p.context_size as int
            }),
            None => tokens == p.context_size,
        },
        (global * p.context_size + swa * tokens) * p.parallel <= u64::MAX,
        p.parallel >= 1,
    ensures
        aggregate_bytes(p) == (global * p.context_size + swa * tokens) * p.parallel,
        ({
            let mb = kv_cache_mb(p);
            mb * 1048576 <= aggregate_bytes(p) < (mb + 1) * 1048576
        }),
{
    let c = p.context_size as int;
    let n = p.parallel as int;
    let x = global * c;
    let y = swa * tokens;
    assert(x >= 0 && y >= 0) by (nonlinear_arith)
        requires
            x == global * c,
            y == swa * tokens,
            global >= 0,
            swa >= 0,
            c >= 0,
            tokens >= 0,
    ;
    assert(x + y <= (x + y) * n) by (nonlinear_arith)
        requires
            x + y >= 0,
            n >= 1,
    ;
    assert(p.kv_bytes_per_token_swa is None ==> y == 0) by {
        if swa == 0 {
            assert(0 * tokens == 0);
        }
    }
}

/// Every model whose cache fits 64 bits is estimated.
pub proof fn law_models_are_estimated(p: KvCacheParams)
    requires
        p.kv_bytes_per_token_global is None && has_dimensions(p) ==> {
            &&& p.n_layers->0 >= 1 && p.n_kv_heads->0 >= 1 && p.embedding_length->0 >= 0
            &&& derived_dim(p) >= 1 && p.context_size >= 1 && p.parallel >= 1
            &&& dimension_bytes(p) <= u64::MAX
        },
    ensures
        estimate_fits(p),
{
    if p.kv_bytes_per_token_global is None && has_dimensions(p) {
        let l = p.n_layers->0 as int;
        let h = p.n_kv_heads->0 as int;
        let d = derived_dim(p);
        let c = p.context_size as int;
        let n = p.parallel as int;
        let a = l * h;
        assert(a >= 1) by (nonlinear_arith)
            requires
                a == l * h,
                l >= 1,
                h >= 1,
        ;
        let b = a * d;
        assert(b >= a && b >= d) by (nonlinear_arith)
            requires
                b == a * d,
                a >= 1,
                d >= 1,
        ;
        let e = b * c;
        assert(e >= b) by (nonlinear_arith)
            requires
                e == b * c,
                b >= 1,
                c >= 1,
        ;
        let f = e * n;
        assert(f >= e) by (nonlinear_arith)
            requires
                f == e * n,
                e >= 1,
                n >= 1,
        ;
        assert(dimension_bytes(p) == f * 2);
    }
}

/// Sizes up to half the range are stored as they are, and every size is read back from what is
/// stored.
pub proof fn law_sizes_are_read_back(n: u64, k: i64)
    ensures
        n <= i64::MAX ==> as_signed(n) == n,
        k >= 0 ==> as_unsigned(k) == k,
        i64::MIN <= as_signed(n) <= i64::MAX,
        as_unsigned(as_signed(n) as i64) == n,
{
}

/// A model of which neither is known is given no cache.
pub proof fn law_unknown_models_have_no_cache(p: KvCacheParams)
    requires
        p.kv_bytes_per_token_global is None,
        p.n_layers is None || p.n_heads is None || p.n_kv_heads is None || p.embedding_length is None,
    ensures
        kv_cache_mb(p) == 0,
{
}

/// The bytes per token of a model with a layer more: a layer with full context adds its heads times
/// key and value length, two bytes each, to the first sum, and a layer with a sliding window, with
/// the lengths of such layers, to the second; the other sum stays.
pub proof fn law_layers_add_to_their_own_sum(m: GgufMetadata, n: GgufMetadata, heads: u32, swa: bool)
    requires
        m.key_length is Some && m.value_length is Some,
        n.key_length == m.key_length && n.value_length == m.value_length,
        n.key_length_swa == m.key_length_swa && n.value_length_swa == m.value_length_swa,
        m.head_count_kv_per_layer is Some && m.sliding_window_pattern is Some,
        n.head_count_kv_per_layer is Some && n.sliding_window_pattern is Some,
        m.head_count_kv_per_layer->0@.len() > 0,
        m.head_count_kv_per_layer->0@.len() == m.sliding_window_pattern->0@.len(),
        n.head_count_kv_per_layer->0@ == m.head_count_kv_per_layer->0@.push(heads),
        n.sliding_window_pattern->0@ == m.sliding_window_pattern->0@.push(swa),
    ensures
        ({
            let (g, s) = kv_aggregates(m);
            let (h, t) = kv_aggregates(n);
            let key = m.key_length->0 as int;
            let value = m.value_length->0 as int;
            let key_swa = if m.key_length_swa is Some {
                m.key_length_swa->0 as int
            } else {
                key
            };
            let value_swa = if m.value_length_swa is Some {
                m.value_length_swa->0 as int
            } else {
                value
            };
            &&& g is Some && s is Some && h is Some && t is Some
            &&& !swa ==> h->0 == g->0 + 2 * heads * (key + value) && t->0 == s->0
            &&& swa ==> t->0 == s->0 + 2 * heads * (key_swa + value_swa) && h->0 == g->0
        }),
{
    let a = m.head_count_kv_per_layer->0@;
    let p = m.sliding_window_pattern->0@;
    let b = a.push(heads);
    let q = p.push(swa);
    assert(b.drop_last() =~= a);
    let dim = crate::api::kv::global_dim(m);
    let dim_swa = crate::api::kv::swa_dim(m);
    lemma_pattern_prefix(a, p, q, false, dim);
    lemma_pattern_prefix(a, p, q, true, dim_swa);
    let x = heads as int;
    assert(x * dim * 2 == 2 * x * dim) by (nonlinear_arith);
    assert(x * dim_swa * 2 == 2 * x * dim_swa) by (nonlinear_arith);
}

proof fn lemma_pattern_prefix(heads: Seq<u32>, p: Seq<bool>, q: Seq<bool>, flag: bool, dim: int)
    requires
        heads.len() <= p.len(),
        heads.len() <= q.len(),
        forall|i: int| 0 <= i < heads.len() ==> p[i] == q[i],
    ensures
        layers_sum(heads, p, flag, dim) == layers_sum(heads, q, flag, dim),
    decreases heads.len(),
{
    if heads.len() > 0 {
        lemma_pattern_prefix(heads.drop_last(), p, q, flag, dim);
    }
}

/// A model with one layer, or with layers that do not differ: each layer has as many heads as the
/// model says.
pub proof fn law_plain_layers(m: GgufMetadata)
    requires
        m.key_length is Some && m.value_length is Some,
        m.block_count is Some && m.head_count_kv is Some,
        m.head_count_kv_per_layer is None || m.sliding_window_pattern is None,
    ensures
        kv_aggregates(m).0 == Some(
            2 * (m.block_count->0 * m.head_count_kv->0) * (m.key_length->0 + m.value_length->0),
        ),
        kv_aggregates(m).1 is None,
{
    let a = m.block_count->0 * m.head_count_kv->0;
    let d = m.key_length->0 + m.value_length->0;
    assert(a * d * 2 == 2 * a * d) by (nonlinear_arith);
}

/// A single layer.
pub proof fn law_one_layer(m: GgufMetadata, heads: u32, swa: bool)
    requires
        m.key_length is Some && m.value_length is Some,
        m.head_count_kv_per_layer is Some && m.head_count_kv_per_layer->0@ == seq![heads],
        m.sliding_window_pattern is Some && m.sliding_window_pattern->0@ == seq![swa],
    ensures
        !swa ==> kv_aggregates(m) == (
            Some(2 * heads * (m.key_length->0 + m.value_length->0)),
            Some(0int),
        ),
        swa ==> kv_aggregates(m).0 == Some(0int),
        swa && m.key_length_swa is Some && m.value_length_swa is Some ==> kv_aggregates(m).1 == Some(
            2 * heads * (m.key_length_swa->0 + m.value_length_swa->0),
        ),
        swa && m.key_length_swa is None && m.value_length_swa is None ==> kv_aggregates(m).1 == Some(
            2 * heads * (m.key_length->0 + m.value_length->0),
        ),
{
    reveal_with_fuel(layers_sum, 2);
    let one = seq![heads];
    assert(one.drop_last() =~= Seq::empty());
    let x = heads as int;
    let dim = crate::api::kv::global_dim(m);
    let dim_swa = crate::api::kv::swa_dim(m);
    assert(x * dim * 2 == 2 * x * dim) by (nonlinear_arith);
    assert(x * dim_swa * 2 == 2 * x * dim_swa) by (nonlinear_arith);
}

} // verus!
