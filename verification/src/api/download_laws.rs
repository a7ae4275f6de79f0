//! What downloads, and the files and searches of the hub, amount to.
use vstd::prelude::*;
use crate::api::download_run::{
    failure_text, source_after, DownloadFailure, TokenizerSource,
};
use crate::api::downloads::{
    after_cancel, after_completion, after_failure, after_progress, after_total, base_model_name,
    conflict_reply, disk_report, download_entry, download_position, find_download, gguf_paths,
    initial_overrides, new_download, other_inflight, repo_dir, space_error, started_reply,
    status_key, total_size, unsafe_path, with_download, with_new, DiskUsage, DownloadRequest,
    DownloadStatus, DownloadView,
};
use crate::api::event_laws::number_under;
use crate::api::gguf::GgufView;
use crate::api::hf::{
    bytes_text, downloadable, found_json, in_units, is_preferred, is_primary, listed_file,
    listed_files, mmproj_name, mmproj_names, page, remote_limit, result_entries, result_entry,
    round_half_even, search_limit, search_offset, search_url, search_words, spacing, tag_params,
    to_53_bits, url_encoded, variant_rank, HfFileEntry, HfModelResult, SearchQuery,
};
use crate::json::{lemma_lookup_push, JsonView};
use crate::text::{
    dec, find_char, find_space, has_prefix, has_suffix, is_space, lemma_find_char_first, lines_of,
    lower, occurs, occurs_at, opt_view, replaced, split_on, trim_end, trim_start, trimmed,
    without_cr, words,
};
use crate::text_laws::{law_decimal_text, law_numbers_are_read};

verus! {

proof fn lemma_number(n: nat)
    ensures
        crate::text_laws::signed_value(dec(n)) == n,
{
    law_decimal_text(n);
    assert('0' <= dec(n)[0]);
}

/// The position of a download is that of the first with its identifier.
proof fn lemma_position(s: Seq<DownloadView>, id: Seq<char>)
    ensures
        ({
            let p = download_position(s, id);
            &&& 0 <= p <= s.len()
            &&& forall|i: int| 0 <= i < p ==> (#[trigger] s[i]).id != id
            &&& p < s.len() ==> s[p].id == id
        }),
    decreases s.len(),
{
    if s.len() > 0 && s[0].id != id {
        let rest = s.skip(1);
        lemma_position(rest, id);
        let p = download_position(s, id);
        assert forall|i: int| 0 <= i < p implies (#[trigger] s[i]).id != id by {
            if i > 0 {
                assert(rest[i - 1] == s[i]);
            }
        }
    }
}

proof fn lemma_position_is(s: Seq<DownloadView>, id: Seq<char>, p: int)
    requires
        0 <= p <= s.len(),
        forall|i: int| 0 <= i < p ==> (#[trigger] s[i]).id != id,
        p < s.len() ==> s[p].id == id,
    ensures
        download_position(s, id) == p,
{
    lemma_position(s, id);
    let q = download_position(s, id);
    if q < p {
        assert(s[q].id != id);
    } else if p < q {
        assert(s[p].id != id);
    }
}

/// What is recorded of a download is found under its identifier, and nothing else is changed by
/// recording it.
pub proof fn law_records_are_kept_apart(
    s: Seq<DownloadView>,
    d: DownloadView,
    other: Seq<char>,
)
    requires
        other != d.id,
    ensures
        find_download(s, d.id) is Some ==> find_download(with_download(s, d.id, d), d.id) == Some(
            d,
        ),
        find_download(s, d.id) is None ==> with_download(s, d.id, d) == s,
        find_download(with_download(s, d.id, d), other) == find_download(s, other),
        find_download(with_new(s, d), d.id) == Some(d),
        find_download(with_new(s, d), other) == find_download(s, other),
        find_download(s, d.id) is None ==> with_new(s, d).len() == s.len() + 1,
        find_download(s, d.id) is Some ==> with_new(s, d).len() == s.len(),
{
    lemma_position(s, d.id);
    lemma_position(s, other);
    let p = download_position(s, d.id);
    let q = download_position(s, other);
    if p < s.len() {
        let t = s.update(p, d);
        assert forall|i: int| 0 <= i < p implies (#[trigger] t[i]).id != d.id by {
            assert(t[i] == s[i]);
        }
        lemma_position_is(t, d.id, p);
        assert forall|i: int| 0 <= i < q implies (#[trigger] t[i]).id != other by {
            if i != p {
                assert(t[i] == s[i]);
            }
        }
        lemma_position_is(t, other, q);
    } else {
        let t = s.push(d);
        assert forall|i: int| 0 <= i < p implies (#[trigger] t[i]).id != d.id by {
            assert(t[i] == s[i]);
        }
        lemma_position_is(t, d.id, p);
        if q < s.len() {
            assert forall|i: int| 0 <= i < q implies (#[trigger] t[i]).id != other by {
                assert(t[i] == s[i]);
            }
            lemma_position_is(t, other, q);
        } else {
            assert forall|i: int| 0 <= i < q + 1 implies (#[trigger] t[i]).id != other by {
                if i < q {
                    assert(t[i] == s[i]);
                }
            }
            lemma_position_is(t, other, q + 1);
        }
    }
}

/// Only a running download can be cancelled: it is then recorded as cancelled, and its client is
/// told. One that is unknown or over is left as it is, and its client is refused.
pub proof fn law_only_running_downloads_are_cancelled(s: Seq<DownloadView>, id: Seq<char>)
    ensures
        ({
            let (r, t) = after_cancel(s, id);
            &&& find_download(s, id) is None ==> r.status == 404 && t == s
            &&& find_download(s, id) is Some && find_download(s, id)->0.status
                != DownloadStatus::Downloading ==> r.status == 409 && t == s
            &&& find_download(s, id) is Some && find_download(s, id)->0.status
                == DownloadStatus::Downloading ==> {
                let d = find_download(s, id)->0;
                let e = find_download(t, id);
                &&& r.status == 200
                &&& e is Some
                &&& e->0.status == DownloadStatus::Cancelled
                &&& e->0.hf_repo == d.hf_repo && e->0.progress_bytes == d.progress_bytes
                &&& e->0.total_bytes == d.total_bytes && e->0.error == d.error
            }
        }),
{
    lemma_position(s, id);
    if find_download(s, id) is Some {
        let d = find_download(s, id)->0;
        assert(id.push('x').len() == id.len() + 1);
        law_records_are_kept_apart(
            s,
            DownloadView { status: DownloadStatus::Cancelled, ..d },
            id.push('x'),
        );
    }
}

/// A failure is recorded with its reason, a completion with the bytes that came, a size and a
/// progress as they are; what else is known of the download stays.
pub proof fn law_what_happens_is_recorded(
    s: Seq<DownloadView>,
    id: Seq<char>,
    error: Seq<char>,
    n: u64,
)
    requires
        find_download(s, id) is Some,
    ensures
        ({
            let d = find_download(s, id)->0;
            let failed = find_download(after_failure(s, id, error), id);
            let complete = find_download(after_completion(s, id, n), id);
            let total = find_download(after_total(s, id, n), id);
            let progress = find_download(after_progress(s, id, n), id);
            &&& failed is Some && complete is Some && total is Some && progress is Some
            &&& failed->0.status == DownloadStatus::Failed && failed->0.error == Some(error)
            &&& failed->0.progress_bytes == d.progress_bytes && failed->0.hf_repo == d.hf_repo
            &&& complete->0.status == DownloadStatus::Complete && complete->0.progress_bytes == n
            &&& complete->0.total_bytes == d.total_bytes && complete->0.error == d.error
            &&& total->0.total_bytes == n && total->0.progress_bytes == d.progress_bytes
            &&& total->0.status == d.status
            &&& progress->0.progress_bytes == n && progress->0.total_bytes == d.total_bytes
            &&& progress->0.status == d.status
        }),
{
    let d = find_download(s, id)->0;
    lemma_position(s, id);
    let other = id.push('x');
    assert(other.len() == id.len() + 1);
    law_records_are_kept_apart(
        s,
        DownloadView { status: DownloadStatus::Failed, error: Some(error), ..d },
        other,
    );
    law_records_are_kept_apart(
        s,
        DownloadView { status: DownloadStatus::Complete, progress_bytes: n, ..d },
        other,
    );
    law_records_are_kept_apart(s, DownloadView { total_bytes: n, ..d }, other);
    law_records_are_kept_apart(s, DownloadView { progress_bytes: n, ..d }, other);
}

/// What happens to an unknown download is not recorded.
pub proof fn law_unknown_downloads_are_not_recorded(
    s: Seq<DownloadView>,
    id: Seq<char>,
    error: Seq<char>,
    n: u64,
)
    requires
        find_download(s, id) is None,
    ensures
        after_failure(s, id, error) == s,
        after_completion(s, id, n) == s,
        after_total(s, id, n) == s,
        after_progress(s, id, n) == s,
{
}

/// A new download has nothing yet, and is for the repository that was asked for.
pub proof fn law_new_downloads(req: DownloadRequest, id: Seq<char>)
    ensures
        ({
            let d = new_download(req, id);
            &&& d.id == id
            &&& d.hf_repo == req.hf_repo@
            &&& d.progress_bytes == 0 && d.total_bytes == 0
            &&& d.status == DownloadStatus::Downloading
            &&& d.error is None
            &&& d.category_id == opt_view(req.category_id)
            &&& req.backend_type is Some ==> d.backend_type == req.backend_type->0@
            &&& req.backend_type is None ==> d.backend_type == "llamacpp"@
        }),
{
}

/// What other downloads will still take: the bytes that are missing, of those that are running.
pub proof fn law_other_downloads_take_what_is_missing(
    s: Seq<DownloadView>,
    d: DownloadView,
    id: Seq<char>,
)
    ensures
        other_inflight(Seq::empty(), id) == 0,
        d.id == id ==> other_inflight(s.push(d), id) == other_inflight(s, id),
        d.status != DownloadStatus::Downloading ==> other_inflight(s.push(d), id)
            == other_inflight(s, id),
        d.id != id && d.status == DownloadStatus::Downloading && d.progress_bytes <= d.total_bytes
            ==> other_inflight(s.push(d), id) + d.progress_bytes == other_inflight(s, id)
            + d.total_bytes,
{
    assert(s.push(d).drop_last() =~= s);
}

proof fn lemma_download_keys()
    ensures
        "id"@.len() == 2,
        "hf_repo"@.len() == 7,
        "progress_bytes"@.len() == 14,
        "total_bytes"@.len() == 11,
        "status"@.len() == 6,
        "error"@.len() == 5,
        "download_id"@.len() == 11,
        "path"@.len() == 4,
        "size"@.len() == 4,
        "downloads"@.len() == 9,
        "likes"@.len() == 5,
        "pipeline_tag"@.len() == 12,
        "tags"@.len() == 4,
        "cardData"@.len() == 8,
        "base_model"@.len() == 10,
        "total_bytes"@ != "download_id"@,
        "path"@ != "size"@,
        "error"@ != "likes"@,
        "path"@ != "tags"@,
        "size"@ != "tags"@,
{
    reveal_strlit("id");
    reveal_strlit("hf_repo");
    reveal_strlit("progress_bytes");
    reveal_strlit("total_bytes");
    reveal_strlit("status");
    reveal_strlit("error");
    reveal_strlit("download_id");
    reveal_strlit("path");
    reveal_strlit("size");
    reveal_strlit("downloads");
    reveal_strlit("likes");
    reveal_strlit("pipeline_tag");
    reveal_strlit("tags");
    reveal_strlit("cardData");
    reveal_strlit("base_model");
    assert("download_id"@[0] == 'd');
    assert("error"@[0] == 'e');
    assert("likes"@[0] == 'l');
    assert("path"@[0] == 'p');
    assert("size"@[0] == 's');
    assert("tags"@[0] == 't');
    assert("total_bytes"@[0] == 't');
}

/// A download is shown with each of its values under the value's own name.
pub proof fn law_downloads_are_shown(d: DownloadView)
    ensures
        ({
            let j = download_entry(d);
            &&& j.text_field("id"@) == Some(d.id)
            &&& j.text_field("hf_repo"@) == Some(d.hf_repo)
            &&& number_under(j, "progress_bytes"@) == Some(d.progress_bytes as int)
            &&& number_under(j, "total_bytes"@) == Some(d.total_bytes as int)
            &&& j.text_field("status"@) == Some(status_key(d.status))
            &&& j.text_field("error"@) == d.error
            &&& d.error is None ==> j.field("error"@) == Some(JsonView::Null)
        }),
        status_key(DownloadStatus::Downloading) == "downloading"@,
        status_key(DownloadStatus::Complete) == "complete"@,
        status_key(DownloadStatus::Failed) == "failed"@,
        status_key(DownloadStatus::Cancelled) == "cancelled"@,
{
    broadcast use lemma_lookup_push;

    lemma_download_keys();
    lemma_number(d.progress_bytes as nat);
    lemma_number(d.total_bytes as nat);
}

/// A download that is started is told its identifier; one that is refused because its repository is
/// being downloaded is told the identifier of that download.
pub proof fn law_started_downloads_are_told(id: Seq<char>, repo: Seq<char>)
    ensures
        started_reply(id).status == 202,
        started_reply(id).body.text_field("download_id"@) == Some(id),
        started_reply(id).body.text_field("status"@) == Some("started"@),
        conflict_reply(repo, id).status == 409,
        conflict_reply(repo, id).body.text_field("download_id"@) == Some(id),
        conflict_reply(repo, id).body.text_field("error"@) is Some,
        has_suffix(conflict_reply(repo, id).body.text_field("error"@)->0, repo),
{
    broadcast use lemma_lookup_push;

    lemma_download_keys();
    let m = "Download already in progress for "@ + repo;
    assert(m.subrange(m.len() - repo.len(), m.len() as int) =~= repo);
}

/// A path of a file is taken unless it leaves the directory: it does where two dots stand in it, or
/// where it begins with a slash.
pub proof fn law_ordinary_paths_are_taken(path: Seq<char>)
    requires
        forall|i: int|
            0 <= i < path.len() - 1 ==> !(#[trigger] path[i] == '.' && path[i + 1] == '.'),
        path.len() > 0 ==> path[0] != '/',
    ensures
        !unsafe_path(path),
{
    reveal_strlit("..");
    reveal_strlit("/");
    if occurs(path, ".."@) {
        let i = choose|i: int| occurs_at(path, ".."@, i);
        let p = path.subrange(i, i + 2);
        assert(p[0] == path[i] && p[1] == path[i + 1]);
    }
    if has_prefix(path, "/"@) {
        assert(path.subrange(0, 1)[0] == path[0]);
    }
}

/// Files are taken exactly where they fit into what is free and the disk does not get too full.
pub proof fn law_space(d: DiskUsage, required: u64, pct: Option<Seq<char>>)
    ensures
        space_error(d, required, pct) is None <==> required <= d.free_bytes && pct is None,
{
}

/// What files take together is what each of them takes; a file of unknown size counts nothing.
pub proof fn law_sizes_add_up(files: Seq<HfFileEntry>, f: HfFileEntry)
    ensures
        total_size(Seq::empty()) == 0,
        f.size is Some ==> total_size(files.push(f)) == total_size(files) + f.size->0,
        f.size is None ==> total_size(files.push(f)) == total_size(files),
{
    assert(files.push(f).drop_last() =~= files);
}

/// The model files among others, in order.
pub proof fn law_gguf_files(files: Seq<HfFileEntry>, f: HfFileEntry)
    ensures
        gguf_paths(Seq::empty()) == Seq::<Seq<char>>::empty(),
        has_suffix(f.path@, ".gguf"@) ==> gguf_paths(files.push(f)) == gguf_paths(files).push(
            f.path@,
        ),
        !has_suffix(f.path@, ".gguf"@) ==> gguf_paths(files.push(f)) == gguf_paths(files),
{
    assert(files.push(f).drop_last() =~= files);
}

proof fn lemma_replaced_concat(a: Seq<char>, b: Seq<char>, c: char, with: Seq<char>)
    ensures
        replaced(a + b, c, with) == replaced(a, c, with) + replaced(b, c, with),
    decreases b.len(),
{
    if b.len() == 0 {
        assert(a + b =~= a);
        assert(replaced(a, c, with) + replaced(b, c, with) =~= replaced(a, c, with));
    } else {
        assert((a + b).drop_last() =~= a + b.drop_last());
        lemma_replaced_concat(a, b.drop_last(), c, with);
        assert(replaced(a + b, c, with) =~= replaced(a, c, with) + replaced(b, c, with));
    }
}

proof fn lemma_replaced_none(a: Seq<char>, c: char, with: Seq<char>)
    requires
        !a.contains(c),
    ensures
        replaced(a, c, with) == a,
    decreases a.len(),
{
    if a.len() > 0 {
        let less = a.drop_last();
        assert(!less.contains(c)) by {
            if less.contains(c) {
                let i = choose|i: int| 0 <= i < less.len() && less[i] == c;
                assert(a[i] == c);
            }
        }
        lemma_replaced_none(less, c, with);
        assert(a[a.len() - 1] != c);
        assert(replaced(a, c, with) =~= a);
    } else {
        assert(replaced(a, c, with) =~= a);
    }
}

/// The directory of a repository: its owner and its name, with two hyphens between them.
pub proof fn law_directories(owner: Seq<char>, name: Seq<char>)
    requires
        !owner.contains('/'),
        !name.contains('/'),
    ensures
        repo_dir(owner.push('/') + name) == owner + "--"@ + name,
{
    lemma_replaced_concat(owner.push('/'), name, '/', "--"@);
    lemma_replaced_none(name, '/', "--"@);
    lemma_replaced_none(owner, '/', "--"@);
    assert(owner.push('/').drop_last() =~= owner);
    assert(replaced(owner.push('/'), '/', "--"@) == owner + "--"@);
}

/// The units of sizes, in bytes and by name.
pub open spec fn unit_of(n: int) -> (int, Seq<char>) {
    if n >= 1099511627776 {
        (1099511627776, " TB"@)
    } else if n >= 1073741824 {
        (1073741824, " GB"@)
    } else if n >= 1048576 {
        (1048576, " MB"@)
    } else {
        (1024, " KB"@)
    }
}

/// A size is told in its largest unit, to the nearest tenth; below one kilobyte, in bytes. (From
/// 2^53 bytes on, the size is first brought to a number that a float holds.)
pub proof fn law_sizes_are_told_to_a_tenth(n: int)
    requires
        0 <= n < 9007199254740992,
    ensures
        n < 1024 ==> bytes_text(n) == dec(n as nat) + " B"@,
        n >= 1024 ==> exists|t: nat|
            {
                let (unit, name) = unit_of(n);
                &&& bytes_text(n) == #[trigger] dec(t / 10) + "."@ + dec(t % 10) + name
                &&& 2 * (t * unit - 10 * n) <= unit
                &&& 2 * (10 * n - t * unit) <= unit
            },
{
    if n >= 1024 {
        let (unit, name) = unit_of(n);
        assert(spacing(n) == 1);
        assert(round_half_even(n, 1) == n);
        assert(to_53_bits(n) == n);
        let x = n * 10;
        let t = round_half_even(x, unit);
        let q = x / unit;
        let r = x % unit;
        assert(x == q * unit + r && 0 <= r < unit && q >= 0) by (nonlinear_arith)
            requires
                q == x / unit,
                r == x % unit,
                unit > 0,
                x >= 0,
        ;
        assert((q + 1) * unit == q * unit + unit) by (nonlinear_arith);
        assert(bytes_text(n) == in_units(n, unit, name));
        let k = t as nat;
        assert(bytes_text(n) == dec(k / 10) + "."@ + dec(k % 10) + name);
    }
}

/// The first word of a line is what comes before the first white space.
proof fn lemma_first_word(w: Seq<char>, rest: Seq<char>)
    requires
        w.len() > 0,
        forall|i: int| 0 <= i < w.len() ==> !is_space(#[trigger] w[i]),
    ensures
        words(w.push(' ') + rest) == seq![w] + words(seq![' '] + rest),
        words(seq![' '] + rest) == words(rest),
        words(w) == seq![w],
{
    let s = w.push(' ') + rest;
    assert(s[0] == w[0] && !is_space(w[0]));
    assert(trim_start(s) == s);
    assert(s[w.len() as int] == ' ');
    lemma_space_at(s, w.len() as int);
    assert(s.take(w.len() as int) =~= w);
    assert(s.skip(w.len() as int) =~= seq![' '] + rest);
    let t = seq![' '] + rest;
    assert(t[0] == ' ');
    assert(t.skip(1) =~= rest);
    assert(trim_start(t) == trim_start(rest));
    lemma_words_of_rest(t, rest);
    assert(trim_start(w) == w);
    lemma_space_none(w);
    assert(w.take(w.len() as int) =~= w);
    assert(w.skip(w.len() as int) =~= Seq::empty());
    assert(words(Seq::empty()) =~= Seq::empty());
    assert(words(w) =~= seq![w]);
}

proof fn lemma_words_of_rest(t: Seq<char>, rest: Seq<char>)
    requires
        trim_start(t) == trim_start(rest),
        t.len() == rest.len() + 1,
    ensures
        words(t) == words(rest),
{
    lemma_trim_len(rest);
    lemma_find_bound(trim_start(rest));
}

proof fn lemma_trim_len(s: Seq<char>)
    ensures
        trim_start(s).len() <= s.len(),
    decreases s.len(),
{
    if s.len() > 0 && is_space(s[0]) {
        lemma_trim_len(s.skip(1));
    }
}

proof fn lemma_find_bound(s: Seq<char>)
    ensures
        0 <= find_space(s) <= s.len(),
    decreases s.len(),
{
    if s.len() > 0 && !is_space(s[0]) {
        lemma_find_bound(s.skip(1));
    }
}

proof fn lemma_space_at(s: Seq<char>, i: int)
    requires
        0 <= i < s.len(),
        is_space(s[i]),
        forall|j: int| 0 <= j < i ==> !is_space(#[trigger] s[j]),
    ensures
        find_space(s) == i,
    decreases i,
{
    if i > 0 {
        assert(!is_space(s[0]));
        let t = s.skip(1);
        assert(t[i - 1] == s[i]);
        assert forall|j: int| 0 <= j < i - 1 implies !is_space(#[trigger] t[j]) by {
            assert(t[j] == s[j + 1]);
        }
        lemma_space_at(t, i - 1);
    }
}

proof fn lemma_space_none(s: Seq<char>)
    requires
        forall|j: int| 0 <= j < s.len() ==> !is_space(#[trigger] s[j]),
    ensures
        find_space(s) == s.len(),
    decreases s.len(),
{
    if s.len() > 0 {
        assert(!is_space(s[0]));
        let t = s.skip(1);
        assert forall|j: int| 0 <= j < t.len() implies !is_space(#[trigger] t[j]) by {
            assert(t[j] == s[j + 1]);
        }
        lemma_space_none(t);
    }
}

proof fn lemma_digits_are_no_space(n: nat)
    ensures
        dec(n).len() > 0,
        forall|i: int| 0 <= i < dec(n).len() ==> !is_space(#[trigger] dec(n)[i]),
        !dec(n).contains('\n'),
{
    law_decimal_text(n);
    assert forall|i: int| 0 <= i < dec(n).len() implies !is_space(#[trigger] dec(n)[i]) by {
        assert('0' <= dec(n)[i] <= '9');
    }
    if dec(n).contains('\n') {
        let i = choose|i: int| 0 <= i < dec(n).len() && dec(n)[i] == '\n';
        assert('0' <= dec(n)[i]);
    }
}

/// The report of a disk's use, a heading and a line with three numbers, is read as total, used and
/// free bytes, in this order.
pub proof fn law_disk_reports(head: Seq<char>, total: u64, used: u64, free: u64)
    requires
        !head.contains('\n'),
    ensures
        ({
            let line = dec(total as nat).push(' ') + (dec(used as nat).push(' ') + dec(
                free as nat,
            ));
            disk_report(head.push('\n') + line) == Ok::<DiskUsage, Seq<char>>(
                (DiskUsage { total_bytes: total, used_bytes: used, free_bytes: free }),
            )
        }),
{
    let a = dec(total as nat);
    let b = dec(used as nat);
    let c = dec(free as nat);
    let line = a.push(' ') + (b.push(' ') + c);
    let out = head.push('\n') + line;
    lemma_digits_are_no_space(total as nat);
    lemma_digits_are_no_space(used as nat);
    lemma_digits_are_no_space(free as nat);
    lemma_find_char_first(out, '\n');
    let k = find_char(out, '\n');
    assert(out[head.len() as int] == '\n');
    if k < head.len() {
        assert(out[k] == head[k]);
        assert(head.contains('\n'));
    }
    assert(k == head.len());
    assert(out.skip(k + 1) =~= line);
    lemma_find_char_first(line, '\n');
    let m = find_char(line, '\n');
    if m < line.len() {
        assert(line[m] == '\n');
        if m < a.len() {
            assert(a[m] == '\n');
            assert(a.contains('\n'));
        } else if m == a.len() {
        } else if m < a.len() + 1 + b.len() {
            assert(b[m - a.len() - 1] == '\n');
            assert(b.contains('\n'));
        } else if m == a.len() + 1 + b.len() {
        } else {
            assert(c[m - a.len() - b.len() - 2] == '\n');
            assert(c.contains('\n'));
        }
    }
    assert(lines_of(line) =~= seq![line]);
    assert(lines_of(out) =~= seq![without_cr(out.take(k))] + lines_of(line));
    assert(lines_of(out)[1] == line);
    assert(!is_space(line[0])) by {
        assert(line[0] == a[0]);
    }
    assert(!is_space(line.last())) by {
        assert(line.last() == c[c.len() - 1]);
    }
    assert(trim_start(line) == line);
    assert(trim_end(line) == line);
    lemma_first_word(a, b.push(' ') + c);
    lemma_first_word(b, c);
    lemma_first_word(c, Seq::empty());
    let parts = words(line);
    assert(parts =~= seq![a, b, c]);
    law_numbers_are_read(total as nat, u64::MAX as int);
    law_numbers_are_read(used as nat, u64::MAX as int);
    law_numbers_are_read(free as nat, u64::MAX as int);
}

/// The model that a repository says it is derived from: the name, or the first of several names, in
/// its card.
pub proof fn law_base_models(info: JsonView, card: JsonView, s: Seq<char>, more: Seq<JsonView>)
    requires
        info.field("cardData"@) == Some(card),
    ensures
        card.field("base_model"@) == Some(JsonView::Text(s)) ==> base_model_name(info) == Some(s),
        card.field("base_model"@) == Some(JsonView::Array(seq![JsonView::Text(s)] + more))
            ==> base_model_name(info) == Some(s),
        card.field("base_model"@) is None ==> base_model_name(info) is None,
{
    let a = seq![JsonView::Text(s)] + more;
    assert(a[0] == JsonView::Text(s));
}

/// A dense model with a sliding window starts without a prompt cache; every other model starts
/// without overrides.
pub proof fn law_first_overrides(m: GgufView)
    ensures
        m.sliding_window is Some && (m.expert_count is None || m.expert_count->0 == 0)
            ==> initial_overrides(m) == "{\"cache_ram_mib\":0}"@,
        m.sliding_window is None || (m.expert_count is Some && m.expert_count->0 > 0)
            ==> initial_overrides(m) == "{}"@,
{
}

/// The configuration of a tokenizer is looked for among the files, then in the repository, then in
/// the model that this one is derived from, and then no more.
pub proof fn law_tokenizers_are_looked_for()
    ensures
        source_after(TokenizerSource::Local) == Some(TokenizerSource::Repository),
        source_after(TokenizerSource::Repository) == Some(TokenizerSource::BaseModel),
        source_after(TokenizerSource::BaseModel) is None,
{
}

/// A failed download tells why: the reason stands at the end of what is said.
pub proof fn law_failures_tell_their_reason(x: String, reason: String)
    ensures
        has_suffix(failure_text(DownloadFailure::Client(reason)), reason@),
        has_suffix(failure_text(DownloadFailure::List(reason)), reason@),
        has_suffix(failure_text(DownloadFailure::ListUnreadable(reason)), reason@),
        has_suffix(failure_text(DownloadFailure::Rule(reason)), reason@),
        has_suffix(failure_text(DownloadFailure::Register(reason)), reason@),
        has_suffix(
            failure_text(DownloadFailure::MakeDirectory { dir: x, reason }),
            x@ + ": "@ + reason@,
        ),
        has_suffix(
            failure_text(DownloadFailure::Fetch { path: x, reason }),
            x@ + ": "@ + reason@,
        ),
        has_suffix(
            failure_text(DownloadFailure::Write { path: x, reason }),
            x@ + ": "@ + reason@,
        ),
        has_suffix(
            failure_text(DownloadFailure::Stream { path: x, reason }),
            x@ + ": "@ + reason@,
        ),
{
    lemma_ends("HTTP client error: "@, reason@);
    lemma_ends("Failed to list repo files: "@, reason@);
    lemma_ends("Failed to parse file listing: "@, reason@);
    lemma_ends(Seq::empty(), reason@);
    assert(Seq::<char>::empty() + reason@ =~= reason@);
    lemma_ends("Download complete but DB registration failed: "@, reason@);
    let tail = x@ + ": "@ + reason@;
    lemma_ends("Failed to create directory "@, tail);
    assert("Failed to create directory "@ + tail =~= "Failed to create directory "@ + x@ + ": "@
        + reason@);
    lemma_ends("Failed to download "@, tail);
    assert("Failed to download "@ + tail =~= "Failed to download "@ + x@ + ": "@ + reason@);
    lemma_ends("Write error for "@, tail);
    assert("Write error for "@ + tail =~= "Write error for "@ + x@ + ": "@ + reason@);
    lemma_ends("Stream error for "@, tail);
    assert("Stream error for "@ + tail =~= "Stream error for "@ + x@ + ": "@ + reason@);
}

proof fn lemma_ends(a: Seq<char>, b: Seq<char>)
    ensures
        has_suffix(a + b, b),
{
    let s = a + b;
    assert(s.subrange(s.len() - b.len(), s.len() as int) =~= b);
}

/// Which entries of a repository are files of its model: files, but not those of version control.
pub open spec fn belongs(f: HfFileEntry) -> bool {
    f.file_type@ == "file"@ && !has_prefix(f.path@, ".git"@)
}

/// Whether a name is that of a projector: a GGUF file at the root whose name begins with `mmproj`
/// and a hyphen or an underscore.
pub open spec fn names_projector(path: Seq<char>) -> bool {
    &&& has_suffix(path, ".gguf"@)
    &&& !path.contains('/')
    &&& has_prefix(path, "mmproj-"@) || has_prefix(path, "mmproj_"@)
}

proof fn lemma_git(path: Seq<char>)
    ensures
        has_prefix(path, ".gitattributes"@) ==> has_prefix(path, ".git"@),
        has_prefix(path, ".gitignore"@) ==> has_prefix(path, ".git"@),
{
    reveal_strlit(".gitattributes");
    reveal_strlit(".gitignore");
    reveal_strlit(".git");
    if has_prefix(path, ".gitattributes"@) {
        assert(path.subrange(0, 4) =~= ".git"@) by {
            let p = path.subrange(0, 14);
            assert(p[0] == path[0] && p[1] == path[1] && p[2] == path[2] && p[3] == path[3]);
        }
    }
    if has_prefix(path, ".gitignore"@) {
        assert(path.subrange(0, 4) =~= ".git"@) by {
            let p = path.subrange(0, 10);
            assert(p[0] == path[0] && p[1] == path[1] && p[2] == path[2] && p[3] == path[3]);
        }
    }
}

/// A download takes, in order, the files of the model that were asked for, and projectors also
/// where they were not.
pub proof fn law_downloads_take_what_was_asked_for(
    files: Seq<HfFileEntry>,
    f: HfFileEntry,
    list: Seq<Seq<char>>,
)
    ensures
        ({
            let some = downloadable(files, Some(list));
            let more = downloadable(files.push(f), Some(list));
            &&& belongs(f) && (list.contains(f.path@) || names_projector(f.path@)) ==> more
                == some.push(f)
            &&& !(belongs(f) && (list.contains(f.path@) || names_projector(f.path@))) ==> more
                == some
        }),
        belongs(f) ==> downloadable(files.push(f), None) == downloadable(files, None).push(f),
        !belongs(f) ==> downloadable(files.push(f), None) == downloadable(files, None),
{
    lemma_git(f.path@);
    reveal(Seq::filter);
    assert(files.push(f).drop_last() =~= files);
}

/// The files of a repository are listed in order, each with its path and its size; entries that are
/// no files of its model are left out.
pub proof fn law_files_are_listed(files: Seq<HfFileEntry>, f: HfFileEntry)
    ensures
        belongs(f) ==> listed_files(files.push(f)) == listed_files(files).push(listed_file(f)),
        !belongs(f) ==> listed_files(files.push(f)) == listed_files(files),
        listed_file(f).text_field("path"@) == Some(f.path@),
        f.size is Some ==> number_under(listed_file(f), "size"@) == Some(f.size->0 as int),
        f.size is None ==> number_under(listed_file(f), "size"@) == Some(0int),
{
    broadcast use lemma_lookup_push;

    lemma_download_keys();
    lemma_git(f.path@);
    assert(files.push(f).drop_last() =~= files);
    lemma_number(crate::api::hf::file_size(f) as nat);
}

/// The projectors among the files of a repository.
pub proof fn law_projectors(files: Seq<HfFileEntry>, f: HfFileEntry)
    ensures
        mmproj_name(f.path@) <==> names_projector(f.path@),
        names_projector(f.path@) ==> mmproj_names(files.push(f)) == mmproj_names(files).push(
            f.path@,
        ),
        !names_projector(f.path@) ==> mmproj_names(files.push(f)) == mmproj_names(files),
{
    assert(files.push(f).drop_last() =~= files);
}

/// The primary file of a model is a GGUF file where there is one, and otherwise one of weights; it
/// is at least as large as every other of its kind.
pub proof fn law_primary_file(files: Seq<HfFileEntry>, i: int, j: int)
    requires
        is_primary(files, i),
        0 <= j < files.len(),
    ensures
        0 <= i < files.len(),
        has_suffix(files[i].path@, ".gguf"@) || has_suffix(files[i].path@, ".safetensors"@),
        has_suffix(files[j].path@, ".gguf"@) ==> has_suffix(files[i].path@, ".gguf"@),
        has_suffix(files[j].path@, ".gguf"@) && files[j].size is Some ==> files[i].size is Some
            && files[j].size->0 <= files[i].size->0 || files[j].size->0 == 0,
        !has_suffix(files[i].path@, ".gguf"@) && has_suffix(files[j].path@, ".safetensors"@)
            && files[j].size is Some ==> files[i].size is Some && files[j].size->0
            <= files[i].size->0 || files[j].size->0 == 0,
        j < i && has_suffix(files[i].path@, ".gguf"@) && has_suffix(files[j].path@, ".gguf"@)
            ==> files[i].size is Some && (files[j].size is Some ==> files[j].size->0
            < files[i].size->0),
{
}

/// The projector that is taken is of the best precision there is, and the first such.
pub proof fn law_preferred_projector(names: Seq<Seq<char>>, i: int, j: int)
    requires
        is_preferred(names, i),
        0 <= j < names.len(),
    ensures
        0 <= i < names.len(),
        variant_rank(names[i]) <= variant_rank(names[j]),
        j < i ==> variant_rank(names[i]) < variant_rank(names[j]),
{
}

/// Projectors of half precision come before those of brain floats, these before those of full
/// precision, and these before all others.
pub proof fn law_variants(half: Seq<char>, brain: Seq<char>, full: Seq<char>, other: Seq<char>)
    requires
        occurs(lower(half), "f16"@) && !occurs(lower(half), "bf16"@),
        occurs(lower(brain), "bf16"@),
        occurs(lower(full), "f32"@) && !occurs(lower(full), "f16"@) && !occurs(
            lower(full),
            "bf16"@,
        ),
        !occurs(lower(other), "f16"@) && !occurs(lower(other), "bf16"@) && !occurs(
            lower(other),
            "f32"@,
        ),
    ensures
        variant_rank(half) < variant_rank(brain) < variant_rank(full) < variant_rank(other),
{
}

/// A result of a search is shown with each of its values under the value's own name.
pub proof fn law_results_are_shown(m: HfModelResult)
    ensures
        ({
            let j = result_entry(m);
            let tags = j.field("tags"@)->0->Array_0;
            &&& m.model_id is Some ==> j.text_field("id"@) == Some(m.model_id->0@)
            &&& m.model_id is None && m.id is Some ==> j.text_field("id"@) == Some(m.id->0@)
            &&& m.downloads is Some ==> number_under(j, "downloads"@) == Some(
                m.downloads->0 as int,
            )
            &&& m.downloads is None ==> number_under(j, "downloads"@) == Some(0int)
            &&& m.likes is Some ==> number_under(j, "likes"@) == Some(m.likes->0 as int)
            &&& m.likes is None ==> number_under(j, "likes"@) == Some(0int)
            &&& j.text_field("pipeline_tag"@) == opt_view(m.pipeline_tag)
            &&& j.field("tags"@) is Some && j.field("tags"@)->0 is Array
            &&& m.tags is Some ==> tags.len() == m.tags->0@.len() && forall|i: int|
                0 <= i < tags.len() ==> #[trigger] tags[i] == JsonView::Text(m.tags->0@[i]@)
            &&& m.tags is None ==> tags.len() == 0
        }),
{
    broadcast use lemma_lookup_push;

    lemma_download_keys();
    lemma_number(
        match m.downloads {
            Some(n) => n as nat,
            None => 0,
        },
    );
    lemma_number(
        match m.likes {
            Some(n) => n as nat,
            None => 0,
        },
    );
}

/// A search that is for GGUF only leaves out the results without it in their name; results keep
/// their order.
pub proof fn law_results_are_filtered(ms: Seq<HfModelResult>, m: HfModelResult)
    ensures
        result_entries(ms.push(m), false) == result_entries(ms, false).push(result_entry(m)),
        m.model_id is Some && occurs(lower(m.model_id->0@), "gguf"@) ==> result_entries(
            ms.push(m),
            true,
        ) == result_entries(ms, true).push(result_entry(m)),
        m.model_id is Some && !occurs(lower(m.model_id->0@), "gguf"@) ==> result_entries(
            ms.push(m),
            true,
        ) == result_entries(ms, true),
{
    assert(ms.push(m).drop_last() =~= ms);
}

/// A page holds the results from its offset on, in order, and at most as many as it may.
pub proof fn law_pages(all: Seq<JsonView>, offset: int, limit: int, i: int)
    requires
        0 <= offset,
        0 <= limit,
    ensures
        0 <= i < limit && offset + i < all.len() ==> i < page(all, offset, limit).len() && page(
            all,
            offset,
            limit,
        )[i] == all[offset + i],
        page(all, offset, limit).len() <= limit,
        offset + page(all, offset, limit).len() <= all.len() || page(all, offset, limit).len() == 0,
{
}

/// A search gives a page of its results and says whether there are more: there are exactly where a
/// result comes behind the page.
pub proof fn law_searches_say_whether_there_is_more(p: SearchQuery, found: Seq<HfModelResult>)
    ensures
        ({
            let j = found_json(p, found);
            let all = result_entries(found, opt_view(p.tags) == Some("gguf"@));
            let shown = j.field("models"@)->0->Array_0;
            &&& j.field("models"@) is Some && j.field("models"@)->0 is Array
            &&& shown == page(all, search_offset(p), search_limit(p))
            &&& j.field("has_more"@) == Some(JsonView::Bool(true)) || j.field("has_more"@) == Some(
                JsonView::Bool(false),
            )
            &&& j.field("has_more"@) == Some(JsonView::Bool(true)) <==> search_offset(p)
                + search_limit(p) < all.len()
            &&& j.field("has_more"@) == Some(JsonView::Bool(true)) ==> shown.len() == search_limit(p)
        }),
{
    broadcast use lemma_lookup_push;

    reveal_strlit("models");
    reveal_strlit("has_more");
    assert("models"@.len() == 6 && "has_more"@.len() == 8);
}

/// A search gives twenty results unless asked otherwise, and at most a hundred; it asks the hub for
/// all up to the end of its page, and for more where some will be left out.
pub proof fn law_search_limits(p: SearchQuery)
    ensures
        p.limit is None ==> search_limit(p) == 20,
        p.limit is Some && p.limit->0 <= 100 ==> search_limit(p) == p.limit->0,
        p.limit is Some && p.limit->0 > 100 ==> search_limit(p) == 100,
        p.offset is Some ==> search_offset(p) == p.offset->0,
        p.offset is None ==> search_offset(p) == 0,
        opt_view(p.tags) != Some("gguf"@) ==> remote_limit(p) == search_offset(p) + search_limit(p),
        opt_view(p.tags) == Some("gguf"@) ==> remote_limit(p) == 3 * (search_offset(p)
            + search_limit(p)),
{
}

/// The tags of a search come last in its address, each trimmed and encoded; a search for GGUF only
/// also says so in its words.
pub proof fn law_search_tags(p: SearchQuery, tags: Seq<Seq<char>>, t: Seq<char>, q: Seq<char>)
    requires
        opt_view(p.q) == Some(q),
    ensures
        tag_params(tags.push(t)) == tag_params(tags) + "&tags="@ + url_encoded(trimmed(t)),
        tag_params(Seq::empty()) == Seq::<char>::empty(),
        p.tags is Some ==> has_suffix(search_url(p), tag_params(split_on(p.tags->0@, ','))),
        opt_view(p.tags) == Some("gguf"@) && !occurs(lower(q), "gguf"@) ==> search_words(p) == q
            + " GGUF"@,
        opt_view(p.tags) == Some("gguf"@) && occurs(lower(q), "gguf"@) ==> search_words(p) == q,
        opt_view(p.tags) != Some("gguf"@) ==> search_words(p) == q,
{
    assert(tags.push(t).drop_last() =~= tags);
    if p.tags is Some {
        let tail = tag_params(split_on(p.tags->0@, ','));
        let url = search_url(p);
        assert(url.subrange(url.len() - tail.len(), url.len() as int) =~= tail);
    }
}

/// The address of a search begins with what is searched for, and orders by downloads.
pub proof fn law_search_addresses(p: SearchQuery, q: Seq<char>)
    requires
        opt_view(p.q) == Some(q),
        opt_view(p.tags) != Some("gguf"@),
    ensures
        has_prefix(
            search_url(p),
            "https://huggingface.co/api/models?search="@ + url_encoded(q)
                + "&sort=downloads&direction=-1&limit="@ + dec(remote_limit(p) as nat),
        ),
        p.tags is None && p.task is Some && p.task->0@.len() > 0 && p.task->0@ != "any"@
            ==> has_suffix(search_url(p), "&pipeline_tag="@ + url_encoded(p.task->0@)),
{
    let base = "https://huggingface.co/api/models?search="@ + url_encoded(q)
        + "&sort=downloads&direction=-1&limit="@ + dec(remote_limit(p) as nat);
    let url = search_url(p);
    assert(url.subrange(0, base.len() as int) =~= base);
    if p.tags is None && p.task is Some && p.task->0@.len() > 0 && p.task->0@ != "any"@ {
        let tail = "&pipeline_tag="@ + url_encoded(p.task->0@);
        assert(url =~= base + tail);
        lemma_ends(base, tail);
    }
}

} // verus!
