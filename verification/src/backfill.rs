//! What is filled in at startup for models that were stored without it.
use vstd::prelude::*;
use vstd::string::StringExecFns;
use crate::api::downloads::{repo_dir, safe_repo};
use crate::api::gguf::GgufMetadata;
use crate::api::hf::{is_preferred, mmproj_names, pick_mmproj_variant, HfFileEntry};
use crate::api::kv::{
    compute_kv_aggregates, dimension_bytes, kv_aggregates, kv_aggregates_fit, opt_int, params_of,
    ModelMetadataRow,
};
use crate::api::kv_laws::law_cache_holds_keys_and_values;
use crate::text::{
    ends_with, has_prefix, has_suffix, law_sorting_ignores_order, lemma_sorted_len, opt_view,
    sort_strings, sorted, starts_with, views,
};

verus! {

/// The file to read a model's metadata from; `None` where the model has no GGUF file.
pub fn gguf_path(model_path: &str, hf_repo: &str, filename: Option<&str>) -> (r: Option<String>)
    ensures
        opt_view(r) == (match filename {
            Some(f) => if has_suffix(f@, ".gguf"@) {
                Some(model_path@ + "/"@ + repo_dir(hf_repo@) + "/"@ + f@)
            } else {
                None
            },
            None => None,
        }),
{
    match filename {
        Some(f) => if ends_with(f, ".gguf") {
            Some(
                model_path.to_owned().concat("/").concat(&safe_repo(hf_repo)).concat("/").concat(f),
            )
        } else {
            None
        },
        None => None,
    }
}

/// The columns that metadata fills in.
#[derive(Debug, Clone, Copy, PartialEq, Eq)]
pub struct GgufColumns {
    pub context_length: Option<i64>,
    pub n_layers: Option<i64>,
    pub n_heads: Option<i64>,
    pub n_kv_heads: Option<i64>,
    pub embedding_length: Option<i64>,
    pub key_length: Option<i64>,
    pub value_length: Option<i64>,
    pub sliding_window: Option<i64>,
    pub kv_bytes_per_token_global: Option<i64>,
    pub kv_bytes_per_token_swa: Option<i64>,
}

/// A number of 32 bits as a number of 64.
pub open spec fn widened(n: Option<u32>) -> Option<int> {
    match n {
        Some(v) => Some(v as int),
        None => None,
    }
}

/// A number of 32 bits as a number of 64.
fn widen(n: Option<u32>) -> (r: Option<i64>)
    ensures
        opt_int(r) == widened(n),
{
    match n {
        Some(v) => Some(v as i64),
        None => None,
    }
}

/// Whether columns hold what the metadata of a file say.
pub open spec fn are_columns_of(r: GgufColumns, meta: GgufMetadata) -> bool {
    &&& opt_int(r.context_length) == widened(meta.context_length)
    &&& opt_int(r.n_layers) == widened(meta.block_count)
    &&& opt_int(r.n_heads) == widened(meta.head_count)
    &&& opt_int(r.n_kv_heads) == widened(meta.head_count_kv)
    &&& opt_int(r.embedding_length) == widened(meta.embedding_length)
    &&& opt_int(r.key_length) == widened(meta.key_length)
    &&& opt_int(r.value_length) == widened(meta.value_length)
    &&& opt_int(r.sliding_window) == widened(meta.sliding_window)
    &&& (opt_int(r.kv_bytes_per_token_global), opt_int(r.kv_bytes_per_token_swa)) == kv_aggregates(
        meta,
    )
}

/// The columns for a model's metadata.
pub fn gguf_columns(meta: &GgufMetadata) -> (r: GgufColumns)
    requires
        kv_aggregates_fit(*meta),
    ensures
        are_columns_of(r, *meta),
{
    let (global, swa) = compute_kv_aggregates(meta);
    GgufColumns {
        context_length: widen(meta.context_length),
        n_layers: widen(meta.block_count),
        n_heads: widen(meta.head_count),
        n_kv_heads: widen(meta.head_count_kv),
        embedding_length: widen(meta.embedding_length),
        key_length: widen(meta.key_length),
        value_length: widen(meta.value_length),
        sliding_window: widen(meta.sliding_window),
        kv_bytes_per_token_global: global,
        kv_bytes_per_token_swa: swa,
    }
}

/// What a model had in a column, or else what metadata says.
pub open spec fn kept_or(had: Option<i64>, says: Option<i64>) -> Option<i64> {
    match had {
        Some(v) => Some(v),
        None => says,
    }
}

/// What a model had in a column, or else what metadata says.
fn keep_or(had: Option<i64>, says: Option<i64>) -> (r: Option<i64>)
    ensures
        r == kept_or(had, says),
{
    match had {
        Some(v) => Some(v),
        None => says,
    }
}

/// A model's columns after metadata was filled in: the layer, head and embedding counts are
/// replaced, everything else is only filled in where there was nothing.
pub open spec fn filled_in(had: GgufColumns, says: GgufColumns) -> GgufColumns {
    GgufColumns {
        context_length: kept_or(had.context_length, says.context_length),
        n_layers: says.n_layers,
        n_heads: says.n_heads,
        n_kv_heads: says.n_kv_heads,
        embedding_length: says.embedding_length,
        key_length: kept_or(had.key_length, says.key_length),
        value_length: kept_or(had.value_length, says.value_length),
        sliding_window: kept_or(had.sliding_window, says.sliding_window),
        kv_bytes_per_token_global: kept_or(
            had.kv_bytes_per_token_global,
            says.kv_bytes_per_token_global,
        ),
        kv_bytes_per_token_swa: kept_or(had.kv_bytes_per_token_swa, says.kv_bytes_per_token_swa),
    }
}

impl GgufColumns {
    /// The columns after metadata was filled in.
    pub fn fill_in(self, says: GgufColumns) -> (r: GgufColumns)
        ensures
            r == filled_in(self, says),
    {
        GgufColumns {
            context_length: keep_or(self.context_length, says.context_length),
            n_layers: says.n_layers,
            n_heads: says.n_heads,
            n_kv_heads: says.n_kv_heads,
            embedding_length: says.embedding_length,
            key_length: keep_or(self.key_length, says.key_length),
            value_length: keep_or(self.value_length, says.value_length),
            sliding_window: keep_or(self.sliding_window, says.sliding_window),
            kv_bytes_per_token_global: keep_or(
                self.kv_bytes_per_token_global,
                says.kv_bytes_per_token_global,
            ),
            kv_bytes_per_token_swa: keep_or(
                self.kv_bytes_per_token_swa,
                says.kv_bytes_per_token_swa,
            ),
        }
    }
}

/// Filling in the same metadata again changes nothing.
pub proof fn law_filling_in_again_changes_nothing(had: GgufColumns, says: GgufColumns)
    ensures
        filled_in(filled_in(had, says), says) == filled_in(had, says),
{
}

/// A model that is estimated by its columns is estimated as its file says: with the layers, the
/// heads and the lengths of keys and values that stand there, for the context that stands there.
pub proof fn law_columns_describe_the_file(
    r: GgufColumns,
    meta: GgufMetadata,
    row: ModelMetadataRow,
    parallel: Option<u32>,
)
    requires
        are_columns_of(r, meta),
        meta.context_length is Some && meta.block_count is Some && meta.head_count_kv is Some,
        meta.head_count is Some && meta.head_count->0 > 0 && meta.embedding_length is Some,
        meta.key_length is Some && meta.value_length is Some,
        row.context_length == r.context_length && row.n_layers == r.n_layers,
        row.n_heads == r.n_heads && row.n_kv_heads == r.n_kv_heads,
        row.embedding_length == r.embedding_length && row.key_length == r.key_length,
        row.value_length == r.value_length && row.sliding_window == r.sliding_window,
    ensures
        ({
            let p = params_of(row, parallel);
            &&& p.context_size == meta.context_length->0
            &&& p.n_heads is Some && p.n_heads->0 == meta.head_count->0
            &&& p.embedding_length is Some && p.embedding_length->0 == meta.embedding_length->0
            &&& meta.sliding_window is Some ==> p.sliding_window is Some && p.sliding_window->0
                == meta.sliding_window->0
            &&& meta.sliding_window is None ==> p.sliding_window is None
            &&& dimension_bytes(p) == (p.parallel * meta.context_length->0) * (meta.block_count->0
                * meta.head_count_kv->0) * (2 * meta.key_length->0 + 2 * meta.value_length->0)
        }),
{
    let p = params_of(row, parallel);
    law_cache_holds_keys_and_values(
        p,
        meta.block_count->0 as int,
        meta.head_count_kv->0 as int,
        meta.key_length->0 as int,
        meta.value_length->0 as int,
    );
}

/// Filling in takes the model's shape from the file, and keeps what was recorded of the rest.
pub proof fn law_filling_in_keeps_what_was_recorded(had: GgufColumns, says: GgufColumns)
    ensures
        ({
            let r = filled_in(had, says);
            &&& r.n_layers == says.n_layers && r.n_heads == says.n_heads
            &&& r.n_kv_heads == says.n_kv_heads && r.embedding_length == says.embedding_length
            &&& had.context_length is Some ==> r.context_length == had.context_length
            &&& had.context_length is None ==> r.context_length == says.context_length
            &&& had.key_length is Some ==> r.key_length == had.key_length
            &&& had.key_length is None ==> r.key_length == says.key_length
            &&& had.value_length is Some ==> r.value_length == had.value_length
            &&& had.value_length is None ==> r.value_length == says.value_length
            &&& had.sliding_window is Some ==> r.sliding_window == had.sliding_window
            &&& had.sliding_window is None ==> r.sliding_window == says.sliding_window
            &&& had.kv_bytes_per_token_global is Some ==> r.kv_bytes_per_token_global
                == had.kv_bytes_per_token_global
            &&& had.kv_bytes_per_token_global is None ==> r.kv_bytes_per_token_global
                == says.kv_bytes_per_token_global
            &&& had.kv_bytes_per_token_swa is Some ==> r.kv_bytes_per_token_swa
                == had.kv_bytes_per_token_swa
            &&& had.kv_bytes_per_token_swa is None ==> r.kv_bytes_per_token_swa
                == says.kv_bytes_per_token_swa
        }),
{
}

/// Whether a file of a model's directory is a multimodal projector.
pub open spec fn projector_name(name: Seq<char>) -> bool {
    (has_prefix(name, "mmproj-"@) || has_prefix(name, "mmproj_"@)) && has_suffix(name, ".gguf"@)
}

/// The projectors among the files of a model's directory.
pub open spec fn projector_names(names: Seq<Seq<char>>) -> Seq<Seq<char>>
    decreases names.len(),
{
    if names.len() == 0 {
        names
    } else if projector_name(names.last()) {
        projector_names(names.drop_last()).push(names.last())
    } else {
        projector_names(names.drop_last())
    }
}

/// The projector to use, out of the names of the files in a model's directory: the first, in order
/// of names, of the best precision; none where there is no projector.
pub fn choose_projector(names: &Vec<String>) -> (r: Option<String>)
    ensures
        match r {
            Some(name) => exists|i: int| #[trigger]
                is_preferred(sorted(projector_names(views(names@))), i) && name@ == sorted(
                    projector_names(views(names@)),
                )[i],
            None => projector_names(views(names@)).len() == 0,
        },
{
    let ghost all = views(names@);
    let mut candidates: Vec<String> = Vec::new();
    let mut i: usize = 0;
    assert(views(candidates@) =~= Seq::empty());
    assert(all.take(0) =~= Seq::empty());
    while i < names.len()
        invariant
            all == views(names@),
            i <= names@.len(),
            views(candidates@) == projector_names(all.take(i as int)),
        decreases names@.len() - i,
    {
        assert(all.take(i + 1).drop_last() =~= all.take(i as int));
        assert(all[i as int] == names@[i as int]@);
        let n = &names[i];
        if (starts_with(n, "mmproj-") || starts_with(n, "mmproj_")) && ends_with(n, ".gguf") {
            let ghost before = candidates@;
            candidates.push(n.clone());
            assert(views(candidates@) =~= views(before).push(n@));
        }
        i += 1;
    }
    assert(all.take(i as int) =~= all);
    assert(views(candidates@).len() == candidates@.len());
    if candidates.len() == 0 {
        return None;
    }
    let ordered = sort_strings(&candidates);
    proof {
        lemma_sorted_len(views(candidates@));
        assert(views(ordered@).len() == ordered@.len());
    }
    Some(pick_mmproj_variant(&ordered))
}

/// The names of the files at the root of a repository.
pub open spec fn root_names(files: Seq<HfFileEntry>) -> Seq<Seq<char>>
    decreases files.len(),
{
    if files.len() == 0 {
        Seq::empty()
    } else if files.last().path@.contains('/') {
        root_names(files.drop_last())
    } else {
        root_names(files.drop_last()).push(files.last().path@)
    }
}

proof fn lemma_projectors_of_root(files: Seq<HfFileEntry>)
    ensures
        projector_names(root_names(files)) == mmproj_names(files),
    decreases files.len(),
{
    if files.len() > 0 {
        lemma_projectors_of_root(files.drop_last());
        let before = root_names(files.drop_last());
        let x = files.last().path@;
        assert(before.push(x).drop_last() =~= before);
    }
}

proof fn lemma_projectors_filter(names: Seq<Seq<char>>)
    ensures
        projector_names(names).to_multiset() == names.to_multiset().filter(
            |n: Seq<char>| projector_name(n),
        ),
    decreases names.len(),
{
    broadcast use vstd::seq_lib::group_to_multiset_ensures;
    broadcast use vstd::multiset::group_multiset_axioms;

    let f = |n: Seq<char>| projector_name(n);
    if names.len() > 0 {
        lemma_projectors_filter(names.drop_last());
        assert(names.drop_last().push(names.last()) =~= names);
    }
    assert(projector_names(names).to_multiset() =~= names.to_multiset().filter(f));
}

/// A projector found in a model's directory is the one that its download chose: for a directory
/// that holds the files at the root of the repository, listed in any order, both choose from the
/// same ordered list.
pub proof fn law_directory_and_repository_agree(files: Seq<HfFileEntry>, names: Seq<Seq<char>>)
    requires
        names.to_multiset() == root_names(files).to_multiset(),
    ensures
        sorted(projector_names(names)) == sorted(mmproj_names(files)),
{
    lemma_projectors_of_root(files);
    lemma_projectors_filter(names);
    lemma_projectors_filter(root_names(files));
    law_sorting_ignores_order(projector_names(names), projector_names(root_names(files)));
}

} // verus!
