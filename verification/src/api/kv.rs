//! How much memory a model needs for its key-value cache.
use vstd::prelude::*;
use crate::api::gguf::GgufMetadata;
use crate::json::{no_fields, Json, JsonView, ObjectBuilder};
use crate::metrics::GpuMemoryInfo;
use crate::reply::{error_reply, Reply, ReplyView};
use crate::text::dec;

verus! {

/// Bytes per token of the layers with the given flag: twice the heads times `dim` for each.
pub open spec fn layers_sum(heads: Seq<u32>, pattern: Seq<bool>, flag: bool, dim: int) -> int
    decreases heads.len(),
{
    if heads.len() == 0 {
        0
    } else {
        let i = heads.len() - 1;
        layers_sum(heads.drop_last(), pattern, flag, dim) + if pattern[i] == flag {
            heads[i] * dim * 2
        } else {
            0
        }
    }
}

/// The first value, or else the second.
pub open spec fn or_else(a: Option<u32>, b: u32) -> u32 {
    match a {
        Some(v) => v,
        None => b,
    }
}

/// Whether head counts and pattern describe the same, non-empty, layers.
pub open spec fn has_layers(meta: GgufMetadata) -> bool {
    &&& meta.head_count_kv_per_layer is Some
    &&& meta.sliding_window_pattern is Some
    &&& meta.head_count_kv_per_layer->0@.len() == meta.sliding_window_pattern->0@.len()
    &&& meta.head_count_kv_per_layer->0@.len() > 0
}

/// Key plus value length of the layers with full context.
pub open spec fn global_dim(meta: GgufMetadata) -> int {
    meta.key_length->0 + meta.value_length->0
}

/// Key plus value length of the layers with sliding-window attention.
pub open spec fn swa_dim(meta: GgufMetadata) -> int {
    or_else(meta.key_length_swa, meta.key_length->0) + or_else(
        meta.value_length_swa,
        meta.value_length->0,
    )
}

/// Bytes per token of the layers with full context and of those with a sliding window.
pub open spec fn kv_aggregates(meta: GgufMetadata) -> (Option<int>, Option<int>) {
    if meta.key_length is None || meta.value_length is None {
        (None, None)
    } else if has_layers(meta) {
        let heads = meta.head_count_kv_per_layer->0@;
        let pattern = meta.sliding_window_pattern->0@;
        (
            Some(layers_sum(heads, pattern, false, global_dim(meta))),
            Some(layers_sum(heads, pattern, true, swa_dim(meta))),
        )
    } else if meta.block_count is None || meta.head_count_kv is None {
        (None, None)
    } else {
        (Some(meta.block_count->0 * meta.head_count_kv->0 * global_dim(meta) * 2), None)
    }
}

/// Whether the sizes that go into the aggregates, and the aggregates themselves, fit their types.
pub open spec fn kv_aggregates_fit(meta: GgufMetadata) -> bool {
    let (global, swa) = kv_aggregates(meta);
    let pattern = meta.sliding_window_pattern->0@;
    &&& global is Some ==> global->0 <= i64::MAX
    &&& swa is Some ==> swa->0 <= i64::MAX
    &&& swa is Some && pattern.contains(false) ==> global_dim(meta) <= u32::MAX
    &&& swa is Some && pattern.contains(true) ==> swa_dim(meta) <= u32::MAX
    &&& global is Some && swa is None ==> global_dim(meta) <= u32::MAX && meta.block_count->0
        * meta.head_count_kv->0 <= i64::MAX
}

/// The model of an optional number.
pub open spec fn opt_int(o: Option<i64>) -> Option<int> {
    match o {
        Some(v) => Some(v as int),
        None => None,
    }
}

/// The sum over the first layers is at most the sum over all.
proof fn lemma_layers_sum_grows(
    heads: Seq<u32>,
    pattern: Seq<bool>,
    flag: bool,
    dim: int,
    i: int,
)
    requires
        0 <= i <= heads.len(),
        dim >= 0,
    ensures
        0 <= layers_sum(heads.take(i), pattern, flag, dim) <= layers_sum(heads, pattern, flag, dim),
    decreases heads.len(),
{
    if i == heads.len() {
        assert(heads.take(i) =~= heads);
        if i > 0 {
            lemma_layers_sum_grows(heads.drop_last(), pattern, flag, dim, i - 1);
            let h = heads[i - 1] as int;
            assert(0 <= h * dim * 2) by (nonlinear_arith)
                requires
                    0 <= h,
                    0 <= dim,
            ;
        }
    } else {
        lemma_layers_sum_grows(heads.drop_last(), pattern, flag, dim, i);
        assert(heads.drop_last().take(i) =~= heads.take(i));
        let h = heads[heads.len() - 1] as int;
        assert(0 <= h * dim * 2) by (nonlinear_arith)
            requires
                0 <= h,
                0 <= dim,
        ;
    }
}

/// Twice `h` times `dim`, where that fits.
fn layer_bytes(h: u32, dim: u64) -> (r: i64)
    requires
        dim <= u32::MAX,
        h * dim * 2 <= i64::MAX,
    ensures
        r == h * dim * 2,
{
    assert(0 <= h * dim <= h * dim * 2) by (nonlinear_arith);
    assert((h as i64) * (dim as i64) == h * dim);
    (h as i64) * (dim as i64) * 2
}

/// Bytes per token of the cache, for the layers with full context and for those with a sliding
/// window. Without a pattern every layer counts as one with full context.
pub fn compute_kv_aggregates(meta: &GgufMetadata) -> (r: (Option<i64>, Option<i64>))
    requires
        kv_aggregates_fit(*meta),
    ensures
        (opt_int(r.0), opt_int(r.1)) == kv_aggregates(*meta),
{
    let key_len: u32 = match meta.key_length {
        Some(v) => v,
        None => {
            return (None, None);
        },
    };
    let val_len: u32 = match meta.value_length {
        Some(v) => v,
        None => {
            return (None, None);
        },
    };
    let key_len_swa: u32 = meta.key_length_swa.unwrap_or(key_len);
    let val_len_swa: u32 = meta.value_length_swa.unwrap_or(val_len);
    if let (Some(heads), Some(pattern)) = (
        &meta.head_count_kv_per_layer,
        &meta.sliding_window_pattern,
    ) {
        if heads.len() == pattern.len() && heads.len() > 0 {
            let dim: u64 = key_len as u64 + val_len as u64;
            let dim_swa: u64 = key_len_swa as u64 + val_len_swa as u64;
            let mut global_bytes: i64 = 0;
            let mut swa_bytes: i64 = 0;
            let mut i: usize = 0;
            while i < heads.len()
                invariant
                    heads@.len() == pattern@.len(),
                    i <= heads@.len(),
                    pattern@.contains(false) ==> dim <= u32::MAX,
                    pattern@.contains(true) ==> dim_swa <= u32::MAX,
                    global_bytes == layers_sum(heads@.take(i as int), pattern@, false, dim as int),
                    swa_bytes == layers_sum(heads@.take(i as int), pattern@, true, dim_swa as int),
                    layers_sum(heads@, pattern@, false, dim as int) <= i64::MAX,
                    layers_sum(heads@, pattern@, true, dim_swa as int) <= i64::MAX,
                decreases heads@.len() - i,
            {
                proof {
                    assert(heads@.take(i + 1).drop_last() =~= heads@.take(i as int));
                    lemma_layers_sum_grows(heads@, pattern@, false, dim as int, i + 1);
                    lemma_layers_sum_grows(heads@, pattern@, true, dim_swa as int, i + 1);
                    lemma_layers_sum_grows(heads@, pattern@, false, dim as int, i as int);
                    lemma_layers_sum_grows(heads@, pattern@, true, dim_swa as int, i as int);
                }
                assert(pattern@.contains(pattern@[i as int]));
                if pattern[i] {
                    swa_bytes += layer_bytes(heads[i], dim_swa);
                } else {
                    global_bytes += layer_bytes(heads[i], dim);
                }
                i += 1;
            }
            assert(heads@.take(i as int) =~= heads@);
            return (Some(global_bytes), Some(swa_bytes));
        }
    }
    let n_layers: u32 = match meta.block_count {
        Some(v) => v,
        None => {
            return (None, None);
        },
    };
    let kv_heads: u32 = match meta.head_count_kv {
        Some(v) => v,
        None => {
            return (None, None);
        },
    };
    let dim: u32 = key_len + val_len;
    let layer_heads: i64 = mul_fits(n_layers as i64, kv_heads as i64);
    let half: i64 = mul_half_fits(layer_heads, dim as i64);
    (Some(half * 2), None)
}

/// A product that fits.
fn mul_fits(a: i64, b: i64) -> (r: i64)
    requires
        0 <= a * b <= i64::MAX,
    ensures
        r == a * b,
{
    a * b
}

/// A product whose double fits.
fn mul_half_fits(a: i64, b: i64) -> (r: i64)
    requires
        0 <= a,
        0 <= b,
        a * b * 2 <= i64::MAX,
    ensures
        r == a * b,
        0 <= r * 2 <= i64::MAX,
{
    assert(0 <= a * b <= a * b * 2) by (nonlinear_arith)
        requires
            0 <= a,
            0 <= b,
    ;
    a * b
}

/// Whether the aggregates of a model can be computed: the sizes that go into them, and they
/// themselves, fit their types.
pub fn kv_aggregates_in_range(meta: &GgufMetadata) -> (r: bool)
    ensures
        r == kv_aggregates_fit(*meta),
{
    if meta.key_length.is_none() || meta.value_length.is_none() {
        return true;
    }
    let key_len: u32 = meta.key_length.unwrap();
    let val_len: u32 = meta.value_length.unwrap();
    let dim: u64 = key_len as u64 + val_len as u64;
    let dim_swa: u64 = meta.key_length_swa.unwrap_or(key_len) as u64
        + meta.value_length_swa.unwrap_or(val_len) as u64;
    if let (Some(heads), Some(pattern)) = (
        &meta.head_count_kv_per_layer,
        &meta.sliding_window_pattern,
    ) {
        if heads.len() == pattern.len() && heads.len() > 0 {
            return layers_in_range(heads, pattern, dim, dim_swa);
        }
    }
    if meta.block_count.is_none() || meta.head_count_kv.is_none() {
        return true;
    }
    let layer_heads: u128 = wide_mul(
        meta.block_count.unwrap() as u64,
        meta.head_count_kv.unwrap() as u64,
    );
    if layer_heads > i64::MAX as u128 || dim > u32::MAX as u64 {
        return false;
    }
    let half: u128 = wide_mul(layer_heads as u64, dim);
    assert(half <= 0x7fff_ffff_ffff_ffff * 0xffff_ffff) by (nonlinear_arith)
        requires
            half == layer_heads * dim,
            layer_heads <= 0x7fff_ffff_ffff_ffff,
            dim <= 0xffff_ffff,
    ;
    half * 2 <= i64::MAX as u128
}

/// A product of two numbers of 64 bits.
fn wide_mul(a: u64, b: u64) -> (r: u128)
    ensures
        r == a * b,
{
    assert(0 <= a * b <= u64::MAX * u64::MAX) by (nonlinear_arith)
        requires
            a <= u64::MAX,
            b <= u64::MAX,
    ;
    (a as u128) * (b as u128)
}

/// Whether the sums over the layers, and the sizes that go into them, fit their types.
fn layers_in_range(heads: &Vec<u32>, pattern: &Vec<bool>, dim: u64, dim_swa: u64) -> (r: bool)
    requires
        heads@.len() == pattern@.len(),
        dim <= 0x1_ffff_fffe,
        dim_swa <= 0x1_ffff_fffe,
    ensures
        r == {
            &&& layers_sum(heads@, pattern@, false, dim as int) <= i64::MAX
            &&& layers_sum(heads@, pattern@, true, dim_swa as int) <= i64::MAX
            &&& pattern@.contains(false) ==> dim <= u32::MAX
            &&& pattern@.contains(true) ==> dim_swa <= u32::MAX
        },
{
    let mut global: u128 = 0;
    let mut swa: u128 = 0;
    let mut i: usize = 0;
    while i < heads.len()
        invariant
            heads@.len() == pattern@.len(),
            i <= heads@.len(),
            dim <= 0x1_ffff_fffe,
            dim_swa <= 0x1_ffff_fffe,
            global == layers_sum(heads@.take(i as int), pattern@, false, dim as int),
            swa == layers_sum(heads@.take(i as int), pattern@, true, dim_swa as int),
            global <= i64::MAX,
            swa <= i64::MAX,
            forall|j: int|
                0 <= j < i ==> if #[trigger] pattern@[j] {
                    dim_swa <= u32::MAX
                } else {
                    dim <= u32::MAX
                },
        decreases heads@.len() - i,
    {
        proof {
            assert(heads@.take(i + 1).drop_last() =~= heads@.take(i as int));
            lemma_layers_sum_grows(heads@, pattern@, false, dim as int, i + 1);
            lemma_layers_sum_grows(heads@, pattern@, true, dim_swa as int, i + 1);
        }
        assert(pattern@.contains(pattern@[i as int]));
        let d: u64 = if pattern[i] {
            dim_swa
        } else {
            dim
        };
        if d > u32::MAX as u64 {
            return false;
        }
        let bytes: u128 = wide_mul(heads[i] as u64, d);
        assert(bytes <= 0xffff_ffff * 0xffff_ffff) by (nonlinear_arith)
            requires
                bytes == heads[i as int] * d,
                heads[i as int] <= 0xffff_ffff,
                d <= 0xffff_ffff,
        ;
        if pattern[i] {
            swa += bytes * 2;
        } else {
            global += bytes * 2;
        }
        if swa > i64::MAX as u128 || global > i64::MAX as u128 {
            return false;
        }
        i += 1;
    }
    assert(heads@.take(i as int) =~= heads@);
    true
}

/// Memory parameters of a model and of how it is to run.
#[derive(Debug, Clone)]
pub struct KvCacheParams {
    pub n_layers: Option<i64>,
    pub n_heads: Option<i64>,
    pub n_kv_heads: Option<i64>,
    pub embedding_length: Option<i64>,
    pub key_length: Option<i64>,
    pub value_length: Option<i64>,
    /// Bytes per token of the layers with full context.
    pub kv_bytes_per_token_global: Option<i64>,
    /// Bytes per token of the layers with a sliding window.
    pub kv_bytes_per_token_swa: Option<i64>,
    pub sliding_window: Option<i64>,
    pub context_size: u64,
    pub parallel: u64,
}

/// A signed number read as an unsigned one: modulo 2^64.
pub open spec fn as_unsigned(n: i64) -> int {
    if n >= 0 {
        n as int
    } else {
        n + 0x1_0000_0000_0000_0000
    }
}

/// A number capped at the greatest unsigned one.
pub open spec fn capped(n: int) -> int {
    if n <= u64::MAX {
        n
    } else {
        u64::MAX as int
    }
}

/// One mebibyte.
pub const MIB: u64 = 1_048_576;

/// How many tokens of the context the layers with a sliding window keep.
pub open spec fn swa_tokens(p: KvCacheParams) -> int {
    match p.sliding_window {
        Some(w) => if as_unsigned(w) < p.context_size {
            as_unsigned(w)
        } else {
            p.context_size as int
        },
        None => p.context_size as int,
    }
}

/// Cache size in bytes from the aggregates, capped at each step.
pub open spec fn aggregate_bytes(p: KvCacheParams) -> int {
    let global = capped(as_unsigned(p.kv_bytes_per_token_global->0) * p.context_size);
    let swa = match p.kv_bytes_per_token_swa {
        Some(b) => capped(as_unsigned(b) * swa_tokens(p)),
        None => 0,
    };
    capped(capped(global + swa) * p.parallel)
}

/// Whether there is enough to derive the cache size from the model's dimensions.
pub open spec fn has_dimensions(p: KvCacheParams) -> bool {
    p.n_layers is Some && p.n_heads is Some && p.n_kv_heads is Some && p.embedding_length is Some
        && p.n_heads->0 > 0
}

/// Key plus value length, each derived from the embedding where it is not given.
pub open spec fn derived_dim(p: KvCacheParams) -> int {
    let head_dim = as_unsigned(p.embedding_length->0) / p.n_heads->0 as int;
    (match p.key_length {
        Some(k) => as_unsigned(k),
        None => head_dim,
    }) + (match p.value_length {
        Some(v) => as_unsigned(v),
        None => head_dim,
    })
}

/// Cache size in bytes from the model's dimensions, with 2 bytes for each element.
pub open spec fn dimension_bytes(p: KvCacheParams) -> int {
    as_unsigned(p.n_layers->0) * as_unsigned(p.n_kv_heads->0) * derived_dim(p) * p.context_size
        * p.parallel * 2
}

/// Whether every product on the way to `dimension_bytes` fits 64 bits.
pub open spec fn dimension_bytes_fit(p: KvCacheParams) -> bool {
    let a = as_unsigned(p.n_layers->0) * as_unsigned(p.n_kv_heads->0);
    &&& a <= u64::MAX
    &&& derived_dim(p) <= u64::MAX
    &&& a * derived_dim(p) <= u64::MAX
    &&& a * derived_dim(p) * p.context_size <= u64::MAX
    &&& a * derived_dim(p) * p.context_size * p.parallel <= u64::MAX
    &&& dimension_bytes(p) <= u64::MAX
}

/// Whether the cache size can be computed: where it is derived from the model's dimensions, every
/// product on the way fits 64 bits.
pub open spec fn estimate_fits(p: KvCacheParams) -> bool {
    p.kv_bytes_per_token_global is None && has_dimensions(p) ==> dimension_bytes_fit(p)
}

/// Cache size in mebibytes; zero where it cannot be estimated.
pub open spec fn kv_cache_mb(p: KvCacheParams) -> int {
    if p.kv_bytes_per_token_global is Some {
        aggregate_bytes(p) / MIB as int
    } else if has_dimensions(p) {
        dimension_bytes(p) / MIB as int
    } else {
        0
    }
}

/// A signed number read as an unsigned one.
pub fn to_unsigned(n: i64) -> (r: u64)
    ensures
        r == as_unsigned(n),
{
    let r: u64 = n as u64;
    assert(n >= 0 ==> r == n) by (bit_vector)
        requires
            r == n as u64,
    ;
    assert(n < 0 ==> r == n + 0x1_0000_0000_0000_0000) by (bit_vector)
        requires
            r == n as u64,
    ;
    r
}

/// An unsigned number read as a signed one: modulo 2^64.
pub open spec fn as_signed(n: u64) -> int {
    if n <= i64::MAX {
        n as int
    } else {
        n - 0x1_0000_0000_0000_0000
    }
}

/// An unsigned number read as a signed one.
pub fn to_signed(n: u64) -> (r: i64)
    ensures
        r == as_signed(n),
{
    let r: i64 = n as i64;
    assert(n <= 0x7fff_ffff_ffff_ffff ==> r == n) by (bit_vector)
        requires
            r == n as i64,
    ;
    assert(n > 0x7fff_ffff_ffff_ffff ==> r == n - 0x1_0000_0000_0000_0000) by (bit_vector)
        requires
            r == n as i64,
    ;
    r
}

/// The product, capped.
fn mul_capped(a: u64, b: u64) -> (r: u64)
    ensures
        r == capped(a * b),
{
    assert(0 <= a * b <= u64::MAX * u64::MAX) by (nonlinear_arith)
        requires
            0 <= a <= u64::MAX,
            0 <= b <= u64::MAX,
    ;
    let m: u128 = (a as u128) * (b as u128);
    if m <= u64::MAX as u128 {
        m as u64
    } else {
        u64::MAX
    }
}

/// A product that fits.
fn mul_u64(a: u64, b: u64) -> (r: u64)
    requires
        a * b <= u64::MAX,
    ensures
        r == a * b,
{
    a * b
}

/// Whether the cache size of a model can be estimated: every product on the way fits 64 bits.
pub fn estimate_in_range(p: &KvCacheParams) -> (r: bool)
    ensures
        r == estimate_fits(*p),
{
    if p.kv_bytes_per_token_global.is_some() {
        return true;
    }
    match (p.n_layers, p.n_heads, p.n_kv_heads, p.embedding_length) {
        (Some(layers), Some(heads), Some(kv_heads), Some(emb_len)) => {
            if heads <= 0 {
                return true;
            }
            let head_dim: u64 = to_unsigned(emb_len) / to_unsigned(heads);
            let key_dim: u64 = match p.key_length {
                Some(k) => to_unsigned(k),
                None => head_dim,
            };
            let val_dim: u64 = match p.value_length {
                Some(v) => to_unsigned(v),
                None => head_dim,
            };
            let dim: u128 = key_dim as u128 + val_dim as u128;
            let most: u128 = u64::MAX as u128;
            assert(dim == derived_dim(*p));
            let a: u128 = wide_mul(to_unsigned(layers), to_unsigned(kv_heads));
            if a > most || dim > most {
                return false;
            }
            let b: u128 = wide_mul(a as u64, dim as u64);
            if b > most {
                return false;
            }
            let c: u128 = wide_mul(b as u64, p.context_size);
            if c > most {
                return false;
            }
            let d: u128 = wide_mul(c as u64, p.parallel);
            d <= most && d * 2 <= most
        },
        _ => true,
    }
}

/// Cache size in mebibytes: from the aggregates where there are any, else from the model's
/// dimensions, else zero.
pub fn estimate_kv_cache_mb(p: &KvCacheParams) -> (r: u64)
    requires
        estimate_fits(*p),
    ensures
        r == kv_cache_mb(*p),
{
    if let Some(global_bpt) = p.kv_bytes_per_token_global {
        let global_bytes: u64 = mul_capped(to_unsigned(global_bpt), p.context_size);
        let swa_bytes: u64 = match p.kv_bytes_per_token_swa {
            Some(swa_bpt) => {
                let tokens: u64 = match p.sliding_window {
                    Some(w) => if to_unsigned(w) < p.context_size {
                        to_unsigned(w)
                    } else {
                        p.context_size
                    },
                    None => p.context_size,
                };
                mul_capped(to_unsigned(swa_bpt), tokens)
            },
            None => 0,
        };
        return mul_capped(global_bytes.saturating_add(swa_bytes), p.parallel) / MIB;
    }
    match (p.n_layers, p.n_heads, p.n_kv_heads, p.embedding_length) {
        (Some(layers), Some(heads), Some(kv_heads), Some(emb_len)) => {
            if heads <= 0 {
                return 0;
            }
            let head_dim: u64 = to_unsigned(emb_len) / to_unsigned(heads);
            let key_dim: u64 = match p.key_length {
                Some(k) => to_unsigned(k),
                None => head_dim,
            };
            let val_dim: u64 = match p.value_length {
                Some(v) => to_unsigned(v),
                None => head_dim,
            };
            let dim: u64 = key_dim + val_dim;
            assert(dim == derived_dim(*p));
            let a: u64 = mul_u64(to_unsigned(layers), to_unsigned(kv_heads));
            let b: u64 = mul_u64(a, dim);
            let c: u64 = mul_u64(b, p.context_size);
            let d: u64 = mul_u64(c, p.parallel);
            mul_u64(d, 2) / MIB
        },
        _ => 0,
    }
}

/// What is stored of a model's size and dimensions.
#[derive(Debug, Clone)]
pub struct ModelMetadataRow {
    pub size_bytes: i64,
    pub context_length: Option<i64>,
    pub n_layers: Option<i64>,
    pub n_heads: Option<i64>,
    pub n_kv_heads: Option<i64>,
    pub embedding_length: Option<i64>,
    pub key_length: Option<i64>,
    pub value_length: Option<i64>,
    pub sliding_window: Option<i64>,
    pub kv_bytes_per_token_global: Option<i64>,
    pub kv_bytes_per_token_swa: Option<i64>,
}

/// The parameters of a stored model that is to run with `parallel` slots, at least one.
pub open spec fn params_of(row: ModelMetadataRow, parallel: Option<u32>) -> KvCacheParams {
    let n = match parallel {
        Some(n) => if n >= 1 {
            n as u64
        } else {
            1
        },
        None => 1,
    };
    KvCacheParams {
        n_layers: row.n_layers,
        n_heads: row.n_heads,
        n_kv_heads: row.n_kv_heads,
        embedding_length: row.embedding_length,
        key_length: row.key_length,
        value_length: row.value_length,
        kv_bytes_per_token_global: row.kv_bytes_per_token_global,
        kv_bytes_per_token_swa: row.kv_bytes_per_token_swa,
        sliding_window: row.sliding_window,
        context_size: as_unsigned(row.context_length->0) as u64,
        parallel: n,
    }
}

impl ModelMetadataRow {
    /// The parameters of the model where it is to run with `parallel` slots, at least one.
    pub fn params(&self, parallel: Option<u32>) -> (r: KvCacheParams)
        requires
            self.context_length is Some,
        ensures
            r == params_of(*self, parallel),
    {
        let slots: u32 = match parallel {
            Some(n) => if n >= 1 {
                n
            } else {
                1
            },
            None => 1,
        };
        KvCacheParams {
            n_layers: self.n_layers,
            n_heads: self.n_heads,
            n_kv_heads: self.n_kv_heads,
            embedding_length: self.embedding_length,
            key_length: self.key_length,
            value_length: self.value_length,
            kv_bytes_per_token_global: self.kv_bytes_per_token_global,
            kv_bytes_per_token_swa: self.kv_bytes_per_token_swa,
            sliding_window: self.sliding_window,
            context_size: to_unsigned(self.context_length.unwrap()),
            parallel: slots as u64,
        }
    }
}

/// A sum over all GPUs.
pub open spec fn gpu_sum(gpus: Seq<GpuMemoryInfo>, f: spec_fn(GpuMemoryInfo) -> u64) -> int
    decreases gpus.len(),
{
    if gpus.len() == 0 {
        0
    } else {
        gpu_sum(gpus.drop_last(), f) + f(gpus.last())
    }
}

/// Total memory of all GPUs.
pub open spec fn gpu_total(gpus: Seq<GpuMemoryInfo>) -> int {
    gpu_sum(gpus, |g: GpuMemoryInfo| g.total_mb)
}

/// Memory in use on all GPUs.
pub open spec fn gpu_used(gpus: Seq<GpuMemoryInfo>) -> int {
    gpu_sum(gpus, |g: GpuMemoryInfo| g.used_mb)
}

/// Free memory of all GPUs.
pub open spec fn gpu_free(gpus: Seq<GpuMemoryInfo>) -> int {
    gpu_sum(gpus, |g: GpuMemoryInfo| g.free_mb)
}

/// Memory beside weights and cache, in mebibytes.
pub const OVERHEAD_MB: u64 = 200;

/// The reply to a request for a memory estimate.
pub open spec fn vram_reply(
    row: Option<ModelMetadataRow>,
    parallel: Option<u32>,
    gpus: Seq<GpuMemoryInfo>,
) -> ReplyView {
    match row {
        None => error_reply(404, "Model not found"@),
        Some(m) => if m.context_length is None {
            error_reply(400, "Model has no context_length set — cannot estimate VRAM"@)
        } else {
            let weights = as_unsigned(m.size_bytes) / MIB as int;
            let cache = kv_cache_mb(params_of(m, parallel));
            let total = weights + cache + OVERHEAD_MB;
            ReplyView {
                status: 200,
                body: JsonView::Object(
                    no_fields().push(
                        ("model_weights_mb"@, JsonView::Number(dec(weights as nat))),
                    ).push(("kv_cache_mb"@, JsonView::Number(dec(cache as nat)))).push(
                        ("overhead_mb"@, JsonView::Number(dec(OVERHEAD_MB as nat))),
                    ).push(("total_mb"@, JsonView::Number(dec(total as nat)))).push(
                        ("gpu_total_mb"@, JsonView::Number(dec(gpu_total(gpus) as nat))),
                    ).push(("gpu_used_mb"@, JsonView::Number(dec(gpu_used(gpus) as nat)))).push(
                        ("gpu_free_mb"@, JsonView::Number(dec(gpu_free(gpus) as nat))),
                    ).push(
                        (
                            "fits"@,
                            JsonView::Bool(gpu_total(gpus) > 0 && total <= gpu_free(gpus)),
                        ),
                    ),
                ),
            }
        },
    }
}

/// A sum over the first GPUs is at most the sum over all.
proof fn lemma_gpu_sum_grows(
    gpus: Seq<GpuMemoryInfo>,
    f: spec_fn(GpuMemoryInfo) -> u64,
    i: int,
)
    requires
        0 <= i <= gpus.len(),
    ensures
        0 <= gpu_sum(gpus.take(i), f) <= gpu_sum(gpus, f),
    decreases gpus.len(),
{
    if i == gpus.len() {
        assert(gpus.take(i) =~= gpus);
        if i > 0 {
            lemma_gpu_sum_grows(gpus.drop_last(), f, i - 1);
        }
    } else {
        lemma_gpu_sum_grows(gpus.drop_last(), f, i);
        assert(gpus.drop_last().take(i) =~= gpus.take(i));
    }
}

/// Total, used and free memory of all GPUs.
fn sum_gpus(gpus: &Vec<GpuMemoryInfo>) -> (r: (u64, u64, u64))
    requires
        gpu_total(gpus@) <= u64::MAX,
        gpu_used(gpus@) <= u64::MAX,
        gpu_free(gpus@) <= u64::MAX,
    ensures
        r.0 == gpu_total(gpus@),
        r.1 == gpu_used(gpus@),
        r.2 == gpu_free(gpus@),
{
    let ghost ft = |g: GpuMemoryInfo| g.total_mb;
    let ghost fu = |g: GpuMemoryInfo| g.used_mb;
    let ghost ff = |g: GpuMemoryInfo| g.free_mb;
    let mut total: u64 = 0;
    let mut used: u64 = 0;
    let mut free: u64 = 0;
    let mut i: usize = 0;
    while i < gpus.len()
        invariant
            i <= gpus@.len(),
            ft == (|g: GpuMemoryInfo| g.total_mb),
            fu == (|g: GpuMemoryInfo| g.used_mb),
            ff == (|g: GpuMemoryInfo| g.free_mb),
            gpu_sum(gpus@, ft) <= u64::MAX,
            gpu_sum(gpus@, fu) <= u64::MAX,
            gpu_sum(gpus@, ff) <= u64::MAX,
            total == gpu_sum(gpus@.take(i as int), ft),
            used == gpu_sum(gpus@.take(i as int), fu),
            free == gpu_sum(gpus@.take(i as int), ff),
        decreases gpus@.len() - i,
    {
        proof {
            assert(gpus@.take(i + 1).drop_last() =~= gpus@.take(i as int));
            lemma_gpu_sum_grows(gpus@, ft, i + 1);
            lemma_gpu_sum_grows(gpus@, fu, i + 1);
            lemma_gpu_sum_grows(gpus@, ff, i + 1);
        }
        total += gpus[i].total_mb;
        used += gpus[i].used_mb;
        free += gpus[i].free_mb;
        i += 1;
    }
    assert(gpus@.take(i as int) =~= gpus@);
    (total, used, free)
}

/// The reply to a request for a memory estimate: 404 for an unknown model, 400 for one without a
/// context length.
pub fn estimate_vram(
    row: Option<&ModelMetadataRow>,
    parallel: Option<u32>,
    gpus: &Vec<GpuMemoryInfo>,
) -> (r: Reply)
    requires
        row is Some && row->0.context_length is Some ==> {
            &&& estimate_fits(params_of(*row->0, parallel))
            &&& gpu_total(gpus@) <= u64::MAX
            &&& gpu_used(gpus@) <= u64::MAX
            &&& gpu_free(gpus@) <= u64::MAX
        },
    ensures
        r@ == vram_reply(
            match row {
                Some(m) => Some(*m),
                None => None,
            },
            parallel,
            gpus@,
        ),
{
    let m = match row {
        Some(m) => m,
        None => {
            return Reply::error(404, "Model not found");
        },
    };
    if m.context_length.is_none() {
        return Reply::error(400, "Model has no context_length set — cannot estimate VRAM");
    }
    let weights: u64 = to_unsigned(m.size_bytes) / MIB;
    let p = m.params(parallel);
    let cache: u64 = estimate_kv_cache_mb(&p);
    assert(cache <= 0x1000_0000_0000);
    let total: u64 = weights + cache + OVERHEAD_MB;
    let (gpu_total_mb, gpu_used_mb, gpu_free_mb) = sum_gpus(gpus);
    let fits = gpu_total_mb > 0 && total <= gpu_free_mb;
    let body = ObjectBuilder::new().with("model_weights_mb", Json::unsigned(weights as u128)).with(
        "kv_cache_mb",
        Json::unsigned(cache as u128),
    ).with("overhead_mb", Json::unsigned(OVERHEAD_MB as u128)).with(
        "total_mb",
        Json::unsigned(total as u128),
    ).with("gpu_total_mb", Json::unsigned(gpu_total_mb as u128)).with(
        "gpu_used_mb",
        Json::unsigned(gpu_used_mb as u128),
    ).with("gpu_free_mb", Json::unsigned(gpu_free_mb as u128)).with(
        "fits",
        Json::Bool(fits),
    ).done();
    Reply { status: 200, body }
}

/// A model without a layer pattern is given the same estimate from its aggregates as from its
/// dimensions.
pub proof fn law_aggregates_match_dimensions(meta: GgufMetadata, p: KvCacheParams, q: KvCacheParams)
    requires
        meta.key_length is Some,
        meta.value_length is Some,
        meta.block_count is Some,
        meta.head_count_kv is Some,
        !has_layers(meta),
        kv_aggregates_fit(meta),
        opt_int(p.kv_bytes_per_token_global) == kv_aggregates(meta).0,
        opt_int(p.kv_bytes_per_token_swa) == kv_aggregates(meta).1,
        q.kv_bytes_per_token_global is None,
        has_dimensions(q),
        dimension_bytes_fit(q),
        q.n_layers->0 == meta.block_count->0,
        q.n_kv_heads->0 == meta.head_count_kv->0,
        q.key_length is Some && q.key_length->0 == meta.key_length->0,
        q.value_length is Some && q.value_length->0 == meta.value_length->0,
        p.context_size == q.context_size,
        p.parallel == q.parallel,
    ensures
        kv_cache_mb(p) == kv_cache_mb(q),
{
    let a = meta.block_count->0 * meta.head_count_kv->0;
    let d = global_dim(meta);
    let c = p.context_size as int;
    let n = p.parallel as int;
    assert(derived_dim(q) == d);
    let b = a * d * 2;
    assert(a >= 0 && a * d >= 0 && a * d * c >= 0 && a * d * c * n >= 0) by (nonlinear_arith)
        requires
            a == meta.block_count->0 * meta.head_count_kv->0,
            meta.block_count->0 >= 0,
            meta.head_count_kv->0 >= 0,
            d >= 0,
            c >= 0,
            n >= 0,
    ;
    assert(b * c * n == a * d * c * n * 2) by (nonlinear_arith)
        requires
            b == a * d * 2,
    ;
    assert(dimension_bytes(q) == a * d * c * n * 2);
    assert(as_unsigned(p.kv_bytes_per_token_global->0) == b);
    if n == 0 {
        assert(forall|x: int| #[trigger] (x * 0) == 0) by (nonlinear_arith);
        assert(a * d * c * 0 * 2 == 0) by (nonlinear_arith);
        assert(aggregate_bytes(p) == 0);
    } else {
        assert(b * c <= b * c * n) by (nonlinear_arith)
            requires
                b * c >= 0,
                n >= 1,
        ;
        assert(b * c >= 0) by (nonlinear_arith)
            requires
                b >= 0,
                c >= 0,
        ;
        assert(b * c <= u64::MAX);
        assert(aggregate_bytes(p) == b * c * n);
    }
}

/// The cache grows in proportion to the number of slots, as long as its size fits 64 bits.
pub proof fn law_slots_multiply(p: KvCacheParams, q: KvCacheParams, k: int)
    requires
        p.kv_bytes_per_token_global is Some,
        p.parallel == 1,
        k >= 0,
        q == (KvCacheParams { parallel: k as u64, ..p }),
        k <= u64::MAX,
        aggregate_bytes(p) * k <= u64::MAX,
        aggregate_bytes(p) < u64::MAX,
    ensures
        aggregate_bytes(q) == aggregate_bytes(p) * k,
{
    assert(swa_tokens(q) == swa_tokens(p));
    let global = capped(as_unsigned(p.kv_bytes_per_token_global->0) * p.context_size);
    let swa = match p.kv_bytes_per_token_swa {
        Some(b) => capped(as_unsigned(b) * swa_tokens(p)),
        None => 0,
    };
    assert(aggregate_bytes(p) == capped(global + swa));
}

/// The same for a cache whose size is derived from the model's dimensions.
pub proof fn law_slots_multiply_dimensions(p: KvCacheParams, q: KvCacheParams, k: int)
    requires
        p.parallel == 1,
        0 <= k <= u64::MAX,
        q == (KvCacheParams { parallel: k as u64, ..p }),
    ensures
        dimension_bytes(q) == dimension_bytes(p) * k,
{
    let x = as_unsigned(p.n_layers->0) * as_unsigned(p.n_kv_heads->0) * derived_dim(p)
        * p.context_size;
    assert(derived_dim(q) == derived_dim(p));
    assert(x * k * 2 == x * 1 * 2 * k) by (nonlinear_arith);
}

/// A sliding window never makes the cache larger.
pub proof fn law_window_never_adds(p: KvCacheParams, q: KvCacheParams)
    requires
        p.kv_bytes_per_token_global is Some,
        q == (KvCacheParams { sliding_window: None, ..p }),
    ensures
        aggregate_bytes(p) <= aggregate_bytes(q),
        kv_cache_mb(p) <= kv_cache_mb(q),
{
    let global = capped(as_unsigned(p.kv_bytes_per_token_global->0) * p.context_size);
    assert(swa_tokens(p) <= swa_tokens(q));
    if let Some(b) = p.kv_bytes_per_token_swa {
        let u = as_unsigned(b);
        let x = swa_tokens(p);
        let y = swa_tokens(q);
        assert(u * x <= u * y) by (nonlinear_arith)
            requires
                u >= 0,
                x <= y,
        ;
        let s = capped(global + capped(u * x));
        let t = capped(global + capped(u * y));
        assert(s <= t);
        let n = p.parallel as int;
        assert(s * n <= t * n) by (nonlinear_arith)
            requires
                s <= t,
                n >= 0,
        ;
    }
}

/// Layers that all use full context and have equally many heads add up to the same as layers
/// without a pattern.
pub proof fn law_uniform_layers(heads: Seq<u32>, pattern: Seq<bool>, h: u32, dim: int)
    requires
        heads.len() == pattern.len(),
        forall|i: int| 0 <= i < heads.len() ==> heads[i] == h && !pattern[i],
    ensures
        layers_sum(heads, pattern, false, dim) == heads.len() * h * dim * 2,
        layers_sum(heads, pattern, true, dim) == 0,
{
    lemma_uniform_prefix(heads, pattern, h, dim);
}

/// The same for the first layers under a longer pattern.
proof fn lemma_uniform_prefix(heads: Seq<u32>, pattern: Seq<bool>, h: u32, dim: int)
    requires
        heads.len() <= pattern.len(),
        forall|i: int| 0 <= i < heads.len() ==> heads[i] == h && !pattern[i],
    ensures
        layers_sum(heads, pattern, false, dim) == heads.len() * h * dim * 2,
        layers_sum(heads, pattern, true, dim) == 0,
    decreases heads.len(),
{
    if heads.len() == 0 {
        assert(0 * h * dim * 2 == 0) by (nonlinear_arith);
    } else {
        lemma_uniform_prefix(heads.drop_last(), pattern, h, dim);
        let n = heads.len() as int;
        let x = h as int;
        assert((n - 1) * x * dim * 2 + x * dim * 2 == n * x * dim * 2) by (nonlinear_arith);
    }
}

} // verus!
