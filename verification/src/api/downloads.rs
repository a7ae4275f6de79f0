//! Downloads: their states, the space they need and what is recorded of a finished one.
use vstd::prelude::*;
use vstd::string::StringExecFns;
use crate::api::gguf::{GgufMetadata, GgufView, no_metadata};
use crate::api::hf::{
    detect_mmproj_file, detect_primary_file, file_size, format_bytes, bytes_text, is_preferred,
    is_primary, mmproj_names, none_ends, HfFileEntry,
};
use crate::api::kv::{
    as_signed, compute_kv_aggregates, kv_aggregates, kv_aggregates_fit, opt_int, to_signed,
};
use crate::json::{json_views, no_fields, parse, json_read, Json, JsonView, ObjectBuilder};
use crate::reply::{error_reply, Reply, ReplyView};
use crate::text::{
    contains, dec, ends_with, find_char, has_prefix, has_suffix, lemma_find_char_first, lines,
    lines_of, number_value, occurs, occurs_at, opt_view, parse_unsigned, replace, replaced, sorted,
    split_on, split_whitespace, starts_with, str_eq, trim, trimmed, views, words, NumberError,
};

verus! {

/// Where a download stands.
#[derive(Debug, Clone, Copy, PartialEq, Eq, Structural)]
pub enum DownloadStatus {
    Downloading,
    Complete,
    Failed,
    Cancelled,
}

/// A download.
#[derive(Debug, Clone)]
pub struct DownloadState {
    pub id: String,
    pub hf_repo: String,
    pub progress_bytes: u64,
    pub total_bytes: u64,
    pub status: DownloadStatus,
    pub error: Option<String>,
    pub category_id: Option<String>,
    pub backend_type: String,
}

/// The model of a download.
pub struct DownloadView {
    pub id: Seq<char>,
    pub hf_repo: Seq<char>,
    pub progress_bytes: u64,
    pub total_bytes: u64,
    pub status: DownloadStatus,
    pub error: Option<Seq<char>>,
    pub category_id: Option<Seq<char>>,
    pub backend_type: Seq<char>,
}

impl View for DownloadState {
    type V = DownloadView;

    open spec fn view(&self) -> DownloadView {
        DownloadView {
            id: self.id@,
            hf_repo: self.hf_repo@,
            progress_bytes: self.progress_bytes,
            total_bytes: self.total_bytes,
            status: self.status,
            error: opt_view(self.error),
            category_id: opt_view(self.category_id),
            backend_type: self.backend_type@,
        }
    }
}

/// The models of a list of downloads.
pub open spec fn download_views(s: Seq<DownloadState>) -> Seq<DownloadView> {
    s.map_values(|d: DownloadState| d@)
}

/// A request to download a repository.
#[derive(Debug)]
pub struct DownloadRequest {
    pub hf_repo: String,
    /// The files to take; all of them where there is no list.
    pub files: Option<Vec<String>>,
    pub category_id: Option<String>,
    pub backend_type: Option<String>,
}

/// All downloads, each under an identifier of its own.
#[derive(Debug)]
pub struct Downloads {
    entries: Vec<DownloadState>,
}

impl View for Downloads {
    type V = Seq<DownloadView>;

    closed spec fn view(&self) -> Seq<DownloadView> {
        download_views(self.entries@)
    }
}

/// Whether download `i` is running for a repository.
pub open spec fn is_active(s: Seq<DownloadView>, i: int, repo: Seq<char>) -> bool {
    0 <= i < s.len() && s[i].hf_repo == repo && s[i].status == DownloadStatus::Downloading
}

/// The invariant of all downloads: identifiers are distinct, and no repository is being
/// downloaded twice.
pub open spec fn downloads_wf(s: Seq<DownloadView>) -> bool {
    &&& forall|i: int, j: int| 0 <= i < j < s.len() ==> (#[trigger] s[i]).id != (#[trigger] s[j]).id
    &&& forall|i: int, j: int|
        0 <= i < j < s.len() && (#[trigger] s[i]).status == DownloadStatus::Downloading && (
        #[trigger] s[j]).status == DownloadStatus::Downloading ==> s[i].hf_repo != s[j].hf_repo
}

/// The position of the download with the given identifier; the number of downloads where there
/// is none.
pub open spec fn download_position(s: Seq<DownloadView>, id: Seq<char>) -> int
    decreases s.len(),
{
    if s.len() == 0 || s[0].id == id {
        0
    } else {
        1 + download_position(s.skip(1), id)
    }
}

/// Where `download_position` finds a download.
proof fn lemma_download_position(s: Seq<DownloadView>, id: Seq<char>, i: int)
    requires
        0 <= i <= s.len(),
        forall|j: int| 0 <= j < i ==> s[j].id != id,
        i == s.len() || s[i].id == id,
    ensures
        download_position(s, id) == i,
    decreases i,
{
    if i > 0 {
        lemma_download_position(s.skip(1), id, i - 1);
    }
}

/// The download with the given identifier.
pub open spec fn find_download(s: Seq<DownloadView>, id: Seq<char>) -> Option<DownloadView> {
    let i = download_position(s, id);
    if 0 <= i < s.len() {
        Some(s[i])
    } else {
        None
    }
}

/// All downloads after one has changed; nothing changes where there is no such download.
pub open spec fn with_download(s: Seq<DownloadView>, id: Seq<char>, d: DownloadView) -> Seq<
    DownloadView,
> {
    let i = download_position(s, id);
    if 0 <= i < s.len() {
        s.update(i, d)
    } else {
        s
    }
}

/// A new download.
pub open spec fn new_download(req: DownloadRequest, id: Seq<char>) -> DownloadView {
    DownloadView {
        id,
        hf_repo: req.hf_repo@,
        progress_bytes: 0,
        total_bytes: 0,
        status: DownloadStatus::Downloading,
        error: None,
        category_id: opt_view(req.category_id),
        backend_type: match req.backend_type {
            Some(b) => b@,
            None => "llamacpp"@,
        },
    }
}

/// All downloads after a new one has been put in; it takes the place of one with the same
/// identifier.
pub open spec fn with_new(s: Seq<DownloadView>, d: DownloadView) -> Seq<DownloadView> {
    let i = download_position(s, d.id);
    if 0 <= i < s.len() {
        s.update(i, d)
    } else {
        s.push(d)
    }
}

/// The reply to a request while the repository is already being downloaded.
pub open spec fn conflict_reply(repo: Seq<char>, id: Seq<char>) -> ReplyView {
    ReplyView {
        status: 409,
        body: JsonView::Object(
            no_fields().push(
                ("error"@, JsonView::Text("Download already in progress for "@ + repo)),
            ).push(("download_id"@, JsonView::Text(id))),
        ),
    }
}

/// The reply to a request that starts a download.
pub open spec fn started_reply(id: Seq<char>) -> ReplyView {
    ReplyView {
        status: 202,
        body: JsonView::Object(
            no_fields().push(("download_id"@, JsonView::Text(id))).push(
                ("status"@, JsonView::Text("started"@)),
            ),
        ),
    }
}

/// The reply to a request while the disk is too full; `pct` is how full it is.
pub open spec fn disk_full_reply(pct: Seq<char>) -> ReplyView {
    error_reply(507, "Disk usage at "@ + pct + "% — downloads blocked above 95%"@)
}

/// The name of a status.
pub open spec fn status_name(s: DownloadStatus) -> Seq<char> {
    match s {
        DownloadStatus::Downloading => "Downloading"@,
        DownloadStatus::Complete => "Complete"@,
        DownloadStatus::Failed => "Failed"@,
        DownloadStatus::Cancelled => "Cancelled"@,
    }
}

/// The name of a status in a listing.
pub open spec fn status_key(s: DownloadStatus) -> Seq<char> {
    match s {
        DownloadStatus::Downloading => "downloading"@,
        DownloadStatus::Complete => "complete"@,
        DownloadStatus::Failed => "failed"@,
        DownloadStatus::Cancelled => "cancelled"@,
    }
}

impl DownloadStatus {
    /// The name of the status.
    fn name(&self) -> (r: &'static str)
        ensures
            r@ == status_name(*self),
    {
        match self {
            DownloadStatus::Downloading => "Downloading",
            DownloadStatus::Complete => "Complete",
            DownloadStatus::Failed => "Failed",
            DownloadStatus::Cancelled => "Cancelled",
        }
    }

    /// The name of the status in a listing.
    pub fn key(&self) -> (r: &'static str)
        ensures
            r@ == status_key(*self),
    {
        match self {
            DownloadStatus::Downloading => "downloading",
            DownloadStatus::Complete => "complete",
            DownloadStatus::Failed => "failed",
            DownloadStatus::Cancelled => "cancelled",
        }
    }
}

/// The entry for a download in a listing.
pub open spec fn download_entry(d: DownloadView) -> JsonView {
    JsonView::Object(
        no_fields().push(("id"@, JsonView::Text(d.id))).push(
            ("hf_repo"@, JsonView::Text(d.hf_repo)),
        ).push(("progress_bytes"@, JsonView::Number(dec(d.progress_bytes as nat)))).push(
            ("total_bytes"@, JsonView::Number(dec(d.total_bytes as nat))),
        ).push(("status"@, JsonView::Text(status_key(d.status)))).push(
            (
                "error"@,
                match d.error {
                    Some(e) => JsonView::Text(e),
                    None => JsonView::Null,
                },
            ),
        ),
    )
}

/// How much the other running downloads still have to fetch.
pub open spec fn other_inflight(s: Seq<DownloadView>, id: Seq<char>) -> int
    decreases s.len(),
{
    if s.len() == 0 {
        0
    } else {
        let d = s.last();
        other_inflight(s.drop_last(), id) + if d.id != id && d.status
            == DownloadStatus::Downloading && d.total_bytes > d.progress_bytes {
            d.total_bytes - d.progress_bytes
        } else {
            0
        }
    }
}

/// The sum over the first downloads is at most the sum over all.
proof fn lemma_inflight_grows(s: Seq<DownloadView>, id: Seq<char>, i: int)
    requires
        0 <= i <= s.len(),
    ensures
        0 <= other_inflight(s.take(i), id) <= other_inflight(s, id),
    decreases s.len(),
{
    if i == s.len() {
        assert(s.take(i) =~= s);
        if i > 0 {
            lemma_inflight_grows(s.drop_last(), id, i - 1);
        }
    } else {
        lemma_inflight_grows(s.drop_last(), id, i);
        assert(s.drop_last().take(i) =~= s.take(i));
    }
}

/// Cancelling a download: the reply, and all downloads after it.
pub open spec fn after_cancel(s: Seq<DownloadView>, id: Seq<char>) -> (
    ReplyView,
    Seq<DownloadView>,
) {
    match find_download(s, id) {
        None => (error_reply(404, "Download not found"@), s),
        Some(d) => if d.status == DownloadStatus::Downloading {
            (
                ReplyView {
                    status: 200,
                    body: JsonView::Object(
                        no_fields().push(("status"@, JsonView::Text("cancelled"@))),
                    ),
                },
                with_download(s, id, DownloadView { status: DownloadStatus::Cancelled, ..d }),
            )
        } else {
            (
                error_reply(
                    409,
                    "Download is not active (status: "@ + status_name(d.status) + ")"@,
                ),
                s,
            )
        },
    }
}

/// All downloads after one has failed.
pub open spec fn after_failure(s: Seq<DownloadView>, id: Seq<char>, error: Seq<char>) -> Seq<
    DownloadView,
> {
    match find_download(s, id) {
        None => s,
        Some(d) => with_download(
            s,
            id,
            DownloadView { status: DownloadStatus::Failed, error: Some(error), ..d },
        ),
    }
}

/// All downloads after one is complete.
pub open spec fn after_completion(s: Seq<DownloadView>, id: Seq<char>, bytes: u64) -> Seq<
    DownloadView,
> {
    match find_download(s, id) {
        None => s,
        Some(d) => with_download(
            s,
            id,
            DownloadView { status: DownloadStatus::Complete, progress_bytes: bytes, ..d },
        ),
    }
}

/// All downloads after the size of one is known.
pub open spec fn after_total(s: Seq<DownloadView>, id: Seq<char>, bytes: u64) -> Seq<
    DownloadView,
> {
    match find_download(s, id) {
        None => s,
        Some(d) => with_download(s, id, DownloadView { total_bytes: bytes, ..d }),
    }
}

/// All downloads after one has come further.
pub open spec fn after_progress(s: Seq<DownloadView>, id: Seq<char>, bytes: u64) -> Seq<
    DownloadView,
> {
    match find_download(s, id) {
        None => s,
        Some(d) => with_download(s, id, DownloadView { progress_bytes: bytes, ..d }),
    }
}

impl Downloads {
    /// The invariant.
    pub open spec fn wf(&self) -> bool {
        downloads_wf(self@)
    }

    /// No downloads.
    pub fn new() -> (r: Downloads)
        ensures
            r@ == Seq::<DownloadView>::empty(),
            r.wf(),
    {
        let r = Downloads { entries: Vec::new() };
        assert(r@ =~= Seq::empty());
        r
    }

    /// The position of the download with the given identifier.
    fn find(&self, id: &str) -> (r: Option<usize>)
        ensures
            match r {
                Some(i) => i < self@.len() && i == download_position(self@, id@) && self@[i as int].id
                    == id@,
                None => download_position(self@, id@) == self@.len() && forall|j: int|
                    0 <= j < self@.len() ==> self@[j].id != id@,
            },
    {
        let mut i: usize = 0;
        while i < self.entries.len()
            invariant
                i <= self.entries@.len(),
                forall|j: int| 0 <= j < i ==> self@[j].id != id@,
            decreases self.entries@.len() - i,
        {
            if str_eq(&self.entries[i].id, id) {
                proof {
                    lemma_download_position(self@, id@, i as int);
                }
                return Some(i);
            }
            i += 1;
        }
        proof {
            lemma_download_position(self@, id@, i as int);
        }
        None
    }

    /// The position of the download that is running for a repository.
    fn find_active(&self, repo: &str) -> (r: Option<usize>)
        ensures
            match r {
                Some(i) => is_active(self@, i as int, repo@),
                None => forall|j: int| !is_active(self@, j, repo@),
            },
    {
        let mut i: usize = 0;
        while i < self.entries.len()
            invariant
                i <= self.entries@.len(),
                forall|j: int| 0 <= j < i ==> !is_active(self@, j, repo@),
            decreases self.entries@.len() - i,
        {
            if str_eq(&self.entries[i].hf_repo, repo) && self.entries[i].status
                == DownloadStatus::Downloading {
                return Some(i);
            }
            i += 1;
        }
        None
    }

    /// Starts a download under the given identifier, unless the checks of the request came to a
    /// refusal, the disk is too full (`blocked_pct` says how full) or the repository is already
    /// being downloaded.
    pub fn start(
        &mut self,
        refusal: Option<Reply>,
        req: &DownloadRequest,
        id: &str,
        blocked_pct: Option<&str>,
    ) -> (r: Reply)
        requires
            old(self).wf(),
        ensures
            final(self).wf(),
            match (refusal, blocked_pct) {
                (Some(reply), _) => r@ == reply@ && final(self)@ == old(self)@,
                (None, Some(pct)) => r@ == disk_full_reply(pct@) && final(self)@ == old(self)@,
                (None, None) => {
                    ||| exists|i: int| #[trigger]
                        is_active(old(self)@, i, req.hf_repo@) && r@ == conflict_reply(
                            req.hf_repo@,
                            old(self)@[i].id,
                        ) && final(self)@ == old(self)@
                    ||| (forall|i: int| !is_active(old(self)@, i, req.hf_repo@)) && r@
                        == started_reply(id@) && final(self)@ == with_new(
                        old(self)@,
                        new_download(*req, id@),
                    )
                },
            },
    {
        if let Some(reply) = refusal {
            return reply;
        }
        if let Some(pct) = blocked_pct {
            let message = "Disk usage at ".to_owned().concat(pct).concat(
                "% — downloads blocked above 95%",
            );
            return Reply::error(507, &message);
        }
        if let Some(i) = self.find_active(&req.hf_repo) {
            let message = "Download already in progress for ".to_owned().concat(&req.hf_repo);
            let body = ObjectBuilder::new().with("error", Json::Text(message)).with(
                "download_id",
                Json::str(&self.entries[i].id),
            ).done();
            return Reply { status: 409, body };
        }
        let d = DownloadState {
            id: id.to_owned(),
            hf_repo: req.hf_repo.clone(),
            progress_bytes: 0,
            total_bytes: 0,
            status: DownloadStatus::Downloading,
            error: None,
            category_id: match &req.category_id {
                Some(c) => Some(c.clone()),
                None => None,
            },
            backend_type: match &req.backend_type {
                Some(b) => b.clone(),
                None => "llamacpp".to_owned(),
            },
        };
        let ghost view = d@;
        assert(view == new_download(*req, id@));
        let ghost before = self@;
        assert forall|j: int| 0 <= j < before.len() implies !(before[j].hf_repo == req.hf_repo@
            && before[j].status == DownloadStatus::Downloading) by {
            assert(!is_active(before, j, req.hf_repo@));
        }
        match self.find(id) {
            Some(i) => {
                self.entries.set(i, d);
                assert(self@ =~= before.update(i as int, view));
            },
            None => {
                self.entries.push(d);
                assert(self@ =~= before.push(view));
            },
        }
        let body = ObjectBuilder::new().with("download_id", Json::str(id)).with(
            "status",
            Json::str("started"),
        ).done();
        Reply { status: 202, body }
    }

    /// Cancels a running download: 404 for an unknown one, 409 for one that is not running.
    pub fn cancel(&mut self, id: &str) -> (r: Reply)
        requires
            old(self).wf(),
        ensures
            final(self).wf(),
            (r@, final(self)@) == after_cancel(old(self)@, id@),
    {
        let ghost before = self@;
        match self.find(id) {
            Some(i) => {
                let status = self.entries[i].status;
                if status == DownloadStatus::Downloading {
                    let d: &mut DownloadState = &mut self.entries[i];
                    d.status = DownloadStatus::Cancelled;
                    assert(self@ =~= before.update(
                        i as int,
                        DownloadView { status: DownloadStatus::Cancelled, ..before[i as int] },
                    ));
                    let body = ObjectBuilder::new().with("status", Json::str("cancelled")).done();
                    Reply { status: 200, body }
                } else {
                    let message = "Download is not active (status: ".to_owned().concat(
                        status.name(),
                    ).concat(")");
                    Reply::error(409, &message)
                }
            },
            None => Reply::error(404, "Download not found"),
        }
    }

    /// Records that a download failed, and why.
    pub fn fail(&mut self, id: &str, error: &str)
        requires
            old(self).wf(),
        ensures
            final(self).wf(),
            final(self)@ == after_failure(old(self)@, id@, error@),
    {
        let ghost before = self@;
        if let Some(i) = self.find(id) {
            let d: &mut DownloadState = &mut self.entries[i];
            d.status = DownloadStatus::Failed;
            d.error = Some(error.to_owned());
            assert(self@ =~= before.update(
                i as int,
                DownloadView {
                    status: DownloadStatus::Failed,
                    error: Some(error@),
                    ..before[i as int]
                },
            ));
        }
    }

    /// Records that a download is complete.
    pub fn complete(&mut self, id: &str, bytes: u64)
        requires
            old(self).wf(),
        ensures
            final(self).wf(),
            final(self)@ == after_completion(old(self)@, id@, bytes),
    {
        let ghost before = self@;
        if let Some(i) = self.find(id) {
            let d: &mut DownloadState = &mut self.entries[i];
            d.status = DownloadStatus::Complete;
            d.progress_bytes = bytes;
            assert(self@ =~= before.update(
                i as int,
                DownloadView {
                    status: DownloadStatus::Complete,
                    progress_bytes: bytes,
                    ..before[i as int]
                },
            ));
        }
    }

    /// Records the size of a download.
    pub fn set_total(&mut self, id: &str, bytes: u64)
        requires
            old(self).wf(),
        ensures
            final(self).wf(),
            final(self)@ == after_total(old(self)@, id@, bytes),
    {
        let ghost before = self@;
        if let Some(i) = self.find(id) {
            let d: &mut DownloadState = &mut self.entries[i];
            d.total_bytes = bytes;
            assert(self@ =~= before.update(
                i as int,
                DownloadView { total_bytes: bytes, ..before[i as int] },
            ));
        }
    }

    /// Records how much of a download has arrived.
    pub fn set_progress(&mut self, id: &str, bytes: u64)
        requires
            old(self).wf(),
        ensures
            final(self).wf(),
            final(self)@ == after_progress(old(self)@, id@, bytes),
    {
        let ghost before = self@;
        if let Some(i) = self.find(id) {
            let d: &mut DownloadState = &mut self.entries[i];
            d.progress_bytes = bytes;
            assert(self@ =~= before.update(
                i as int,
                DownloadView { progress_bytes: bytes, ..before[i as int] },
            ));
        }
    }

    /// Whether a download has been cancelled.
    pub fn is_cancelled(&self, id: &str) -> (r: bool)
        ensures
            r == (match find_download(self@, id@) {
                Some(d) => d.status == DownloadStatus::Cancelled,
                None => false,
            }),
    {
        match self.find(id) {
            Some(i) => self.entries[i].status == DownloadStatus::Cancelled,
            None => false,
        }
    }

    /// How much the other running downloads still have to fetch; `None` where that does not fit
    /// 64 bits.
    pub fn inflight_beside(&self, id: &str) -> (r: Option<u64>)
        ensures
            match r {
                Some(n) => n == other_inflight(self@, id@),
                None => other_inflight(self@, id@) > u64::MAX,
            },
    {
        let ghost all = self@;
        let mut sum: u64 = 0;
        let mut i: usize = 0;
        assert(all.take(0) =~= Seq::empty());
        while i < self.entries.len()
            invariant
                all == download_views(self.entries@),
                i <= self.entries@.len(),
                all == self@,
                sum == other_inflight(all.take(i as int), id@),
            decreases self.entries@.len() - i,
        {
            proof {
                assert(all.take(i + 1).drop_last() =~= all.take(i as int));
                assert(all.take(i + 1).last() == self.entries@[i as int]@);
                lemma_inflight_grows(all, id@, i + 1);
            }
            let d = &self.entries[i];
            if !str_eq(&d.id, id) && d.status == DownloadStatus::Downloading && d.total_bytes
                > d.progress_bytes {
                let left: u64 = d.total_bytes - d.progress_bytes;
                if sum > u64::MAX - left {
                    return None;
                }
                sum += left;
            }
            i += 1;
        }
        assert(all.take(i as int) =~= all);
        Some(sum)
    }

    /// The body that lists all downloads.
    pub fn list(&self) -> (r: Json)
        ensures
            r@ == JsonView::Object(
                no_fields().push(
                    (
                        "downloads"@,
                        JsonView::Array(self@.map_values(|d: DownloadView| download_entry(d))),
                    ),
                ),
            ),
    {
        let mut out: Vec<Json> = Vec::new();
        let mut i: usize = 0;
        while i < self.entries.len()
            invariant
                i == out@.len(),
                i <= self.entries@.len(),
                forall|j: int| 0 <= j < i ==> out@[j]@ == download_entry(self@[j]),
            decreases self.entries@.len() - i,
        {
            let d = &self.entries[i];
            let error = match &d.error {
                Some(e) => Json::str(e),
                None => Json::Null,
            };
            let entry = ObjectBuilder::new().with("id", Json::str(&d.id)).with(
                "hf_repo",
                Json::str(&d.hf_repo),
            ).with("progress_bytes", Json::unsigned(d.progress_bytes as u128)).with(
                "total_bytes",
                Json::unsigned(d.total_bytes as u128),
            ).with("status", Json::str(d.status.key())).with("error", error).done();
            out.push(entry);
            i += 1;
        }
        assert(json_views(out@) =~= self@.map_values(|d: DownloadView| download_entry(d)));
        ObjectBuilder::new().with("downloads", Json::array(out)).done()
    }
}

/// Size and use of a file system.
#[derive(Debug, Clone, Copy, PartialEq, Eq)]
pub struct DiskUsage {
    pub total_bytes: u64,
    pub used_bytes: u64,
    pub free_bytes: u64,
}

/// A column of the report that is not a number.
pub open spec fn bad_column(name: Seq<char>, e: NumberError) -> Seq<char> {
    "Failed to parse "@ + name + " bytes: "@ + e.text()
}

/// What a report of size, used and available bytes says. The numbers stand in its second line,
/// below their headings.
pub open spec fn disk_report(out: Seq<char>) -> Result<DiskUsage, Seq<char>> {
    let ls = lines_of(out);
    if ls.len() < 2 {
        Err("Unexpected df output format"@)
    } else {
        let line = trimmed(ls[1]);
        let parts = words(line);
        if parts.len() < 3 {
            Err("Unexpected df output columns: "@ + line)
        } else {
            match number_value(parts[0], u64::MAX as int) {
                Err(e) => Err(bad_column("total"@, e)),
                Ok(total) => match number_value(parts[1], u64::MAX as int) {
                    Err(e) => Err(bad_column("used"@, e)),
                    Ok(used) => match number_value(parts[2], u64::MAX as int) {
                        Err(e) => Err(bad_column("free"@, e)),
                        Ok(free) => Ok(
                            DiskUsage {
                                total_bytes: total as u64,
                                used_bytes: used as u64,
                                free_bytes: free as u64,
                            },
                        ),
                    },
                },
            }
        }
    }
}

/// A column of the report.
fn parse_column(text: &str, name: &str) -> (r: Result<u64, String>)
    ensures
        match r {
            Ok(n) => number_value(text@, u64::MAX as int) == Ok::<int, NumberError>(n as int),
            Err(m) => number_value(text@, u64::MAX as int) is Err && m@ == bad_column(
                name@,
                number_value(text@, u64::MAX as int)->Err_0,
            ),
        },
{
    match parse_unsigned(text, u64::MAX) {
        Ok(n) => Ok(n),
        Err(e) => Err(
            "Failed to parse ".to_owned().concat(name).concat(" bytes: ").concat(e.message()),
        ),
    }
}

/// Reads the report that `df -B1 --output=size,used,avail` prints.
pub fn get_disk_usage(out: &str) -> (r: Result<DiskUsage, String>)
    ensures
        match r {
            Ok(d) => disk_report(out@) == Ok::<DiskUsage, Seq<char>>(d),
            Err(m) => disk_report(out@) == Err::<DiskUsage, Seq<char>>(m@),
        },
{
    let ls = lines(out);
    assert(views(ls@).len() == ls@.len());
    if ls.len() < 2 {
        return Err("Unexpected df output format".to_owned());
    }
    assert(views(ls@)[1] == ls@[1]@);
    let line = trim(&ls[1]);
    let parts = split_whitespace(&line);
    assert(views(parts@).len() == parts@.len());
    if parts.len() < 3 {
        return Err("Unexpected df output columns: ".to_owned().concat(&line));
    }
    assert(views(parts@)[0] == parts@[0]@);
    assert(views(parts@)[1] == parts@[1]@);
    assert(views(parts@)[2] == parts@[2]@);
    let total_bytes: u64 = match parse_column(&parts[0], "total") {
        Ok(n) => n,
        Err(e) => {
            return Err(e);
        },
    };
    let used_bytes: u64 = match parse_column(&parts[1], "used") {
        Ok(n) => n,
        Err(e) => {
            return Err(e);
        },
    };
    let free_bytes: u64 = match parse_column(&parts[2], "free") {
        Ok(n) => n,
        Err(e) => {
            return Err(e);
        },
    };
    Ok(DiskUsage { total_bytes, used_bytes, free_bytes })
}

/// Whether a download fits on the disk. `required` is what it and the other running downloads
/// still need; `blocked_pct` says how full the disk would then be, where that is too full.
pub open spec fn space_error(
    disk: DiskUsage,
    required: u64,
    blocked_pct: Option<Seq<char>>,
) -> Option<Seq<char>> {
    if required > disk.free_bytes {
        Some(
            "Not enough disk space: need "@ + bytes_text(required as int) + " but only "@
                + bytes_text(disk.free_bytes as int) + " free"@,
        )
    } else {
        match blocked_pct {
            Some(pct) => Some(
                "Download would push disk to "@ + pct + "% (threshold 95%): need "@ + bytes_text(
                    required as int,
                ) + ", "@ + bytes_text(disk.free_bytes as int) + " free"@,
            ),
            None => None,
        }
    }
}

/// What a download and the other running ones need, and how much of the disk is then in use;
/// `None` where that does not fit 64 bits.
pub fn project_disk_use(disk: &DiskUsage, total_bytes: u64, other: u64) -> (r: Option<(u64, u64)>)
    ensures
        match r {
            Some((required, used)) => required == total_bytes + other && used == disk.used_bytes
                + total_bytes + other,
            None => disk.used_bytes + total_bytes + other > u64::MAX,
        },
{
    if total_bytes > u64::MAX - other {
        return None;
    }
    let required: u64 = total_bytes + other;
    if disk.used_bytes > u64::MAX - required {
        return None;
    }
    Some((required, disk.used_bytes + required))
}

/// Whether a download fits on the disk; else why not.
pub fn validate_disk_space(disk: &DiskUsage, required: u64, blocked_pct: Option<&str>) -> (r:
    Result<(), String>)
    ensures
        match r {
            Ok(_) => space_error(
                *disk,
                required,
                crate::api::anthropic::opt_str_view(blocked_pct),
            ) is None,
            Err(m) => space_error(
                *disk,
                required,
                crate::api::anthropic::opt_str_view(blocked_pct),
            ) == Some(m@),
        },
{
    if required > disk.free_bytes {
        return Err(
            "Not enough disk space: need ".to_owned().concat(&format_bytes(required)).concat(
                " but only ",
            ).concat(&format_bytes(disk.free_bytes)).concat(" free"),
        );
    }
    match blocked_pct {
        Some(pct) => Err(
            "Download would push disk to ".to_owned().concat(pct).concat(
                "% (threshold 95%): need ",
            ).concat(&format_bytes(required)).concat(", ").concat(
                &format_bytes(disk.free_bytes),
            ).concat(" free"),
        ),
        None => Ok(()),
    }
}

/// A hint for the user about an HTTP error: access to gated models needs a token.
pub open spec fn access_hint(status: u16, has_token: bool) -> Seq<char> {
    if status == 401 || status == 403 {
        if has_token {
            " — HF_TOKEN may lack access to this gated model"@
        } else {
            " — this may be a gated model; set HF_TOKEN env var to authenticate"@
        }
    } else {
        ""@
    }
}

/// A hint for the user about an HTTP error.
pub fn hf_http_error_hint(status: u16, has_token: bool) -> (r: &'static str)
    ensures
        r@ == access_hint(status, has_token),
{
    if status == 401 || status == 403 {
        if has_token {
            " — HF_TOKEN may lack access to this gated model"
        } else {
            " — this may be a gated model; set HF_TOKEN env var to authenticate"
        }
    } else {
        ""
    }
}

/// Whether a path is refused because it could lead out of the download's directory.
pub open spec fn unsafe_path(path: Seq<char>) -> bool {
    occurs(path, ".."@) || has_prefix(path, "/"@)
}

/// Where a file of a repository is fetched from and stored; an error for a path that is refused.
pub fn plan_file(path: &str, hf_repo: &str, dest_dir: &str) -> (r: Result<(String, String), String>)
    ensures
        match r {
            Ok((url, dest)) => !unsafe_path(path@) && url@ == "https://huggingface.co/"@ + hf_repo@
                + "/resolve/main/"@ + path@ && dest@ == dest_dir@ + "/"@ + path@,
            Err(m) => unsafe_path(path@) && m@ == "Refusing file with unsafe path: "@ + path@,
        },
{
    if contains(path, "..") || starts_with(path, "/") {
        return Err("Refusing file with unsafe path: ".to_owned().concat(path));
    }
    let url = "https://huggingface.co/".to_owned().concat(hf_repo).concat("/resolve/main/").concat(
        path,
    );
    Ok((url, dest_dir.to_owned().concat("/").concat(path)))
}

/// The first piece of a text, and each later one, occurs in the text.
proof fn lemma_pieces_occur(s: Seq<char>, c: char, k: int)
    requires
        0 <= k < split_on(s, c).len(),
    ensures
        occurs(s, split_on(s, c)[k]),
    decreases s.len(),
{
    lemma_find_char_first(s, c);
    let i = find_char(s, c);
    if 0 <= i < s.len() {
        if k == 0 {
            assert(s.subrange(0, i) =~= s.take(i));
            assert(occurs_at(s, s.take(i), 0));
        } else {
            let rest = s.skip(i + 1);
            lemma_pieces_occur(rest, c, k - 1);
            let p = split_on(rest, c)[k - 1];
            let at = choose|at: int| occurs_at(rest, p, at);
            assert(s.subrange(i + 1 + at, i + 1 + at + p.len()) =~= rest.subrange(
                at,
                at + p.len(),
            ));
            assert(occurs_at(s, p, i + 1 + at));
        }
    } else {
        assert(s.subrange(0, s.len() as int) =~= s);
        assert(occurs_at(s, s, 0));
    }
}

/// A path that is not refused is relative and never leads to a parent directory.
pub proof fn law_safe_paths_stay_inside(path: Seq<char>)
    requires
        !unsafe_path(path),
    ensures
        forall|k: int| 0 <= k < split_on(path, '/').len() ==> split_on(path, '/')[k] != ".."@,
        path.len() > 0 ==> path[0] != '/',
{
    reveal_strlit("/");
    assert forall|k: int| 0 <= k < split_on(path, '/').len() implies split_on(path, '/')[k]
        != ".."@ by {
        lemma_pieces_occur(path, '/', k);
    }
    if path.len() > 0 && path[0] == '/' {
        assert(path.subrange(0, 1) =~= "/"@);
    }
}

/// The name of the directory for a repository.
pub open spec fn repo_dir(hf_repo: Seq<char>) -> Seq<char> {
    replaced(hf_repo, '/', "--"@)
}

/// The name of the directory for a repository: each slash becomes two hyphens.
pub fn safe_repo(hf_repo: &str) -> (r: String)
    ensures
        r@ == repo_dir(hf_repo@),
{
    replace(hf_repo, '/', "--")
}

/// The directory name of a repository holds no slash.
pub proof fn law_repo_dir_has_no_slash(hf_repo: Seq<char>)
    ensures
        !repo_dir(hf_repo).contains('/'),
    decreases hf_repo.len(),
{
    reveal_strlit("--");
    if hf_repo.len() > 0 {
        law_repo_dir_has_no_slash(hf_repo.drop_last());
        let before = repo_dir(hf_repo.drop_last());
        let last = if hf_repo.last() == '/' {
            "--"@
        } else {
            seq![hf_repo.last()]
        };
        assert(repo_dir(hf_repo) == before + last);
        assert forall|i: int| 0 <= i < (before + last).len() implies (before + last)[i] != '/' by {
            if i < before.len() {
                assert(before.contains(before[i]));
            } else {
                assert((before + last)[i] == last[i - before.len()]);
            }
        }
    }
}

/// The addresses that a repository's records are fetched from.
pub fn tree_url(hf_repo: &str) -> (r: String)
    ensures
        r@ == "https://huggingface.co/api/models/"@ + hf_repo@ + "/tree/main"@,
{
    "https://huggingface.co/api/models/".to_owned().concat(hf_repo).concat("/tree/main")
}

/// The address of a repository's description.
pub fn model_info_url(hf_repo: &str) -> (r: String)
    ensures
        r@ == "https://huggingface.co/api/models/"@ + hf_repo@,
{
    "https://huggingface.co/api/models/".to_owned().concat(hf_repo)
}

/// The address of a repository's tokenizer configuration.
pub fn tokenizer_url(hf_repo: &str) -> (r: String)
    ensures
        r@ == "https://huggingface.co/"@ + hf_repo@ + "/raw/main/tokenizer_config.json"@,
{
    "https://huggingface.co/".to_owned().concat(hf_repo).concat("/raw/main/tokenizer_config.json")
}

/// The model that a repository says it is derived from: a name, or the first of several.
pub open spec fn base_model_name(info: JsonView) -> Option<Seq<char>> {
    match info.field("cardData"@) {
        None => None,
        Some(card) => match card.field("base_model"@) {
            None => None,
            Some(base) => match base {
                JsonView::Text(s) => Some(s),
                JsonView::Array(a) => if a.len() > 0 {
                    a[0].text()
                } else {
                    None
                },
                _ => None,
            },
        },
    }
}

/// The model that a repository says it is derived from.
pub fn base_model_of(info: &Json) -> (r: Option<String>)
    ensures
        opt_view(r) == base_model_name(info@),
{
    broadcast use crate::json::lemma_array_view;

    match info.get("cardData") {
        None => None,
        Some(card) => match card.get("base_model") {
            None => None,
            Some(base) => match base {
                Json::Text(s) => Some(s.clone()),
                Json::Array(a) => {
                    assert(json_views(a@).len() == a@.len());
                    if a.len() > 0 {
                        assert(json_views(a@)[0] == a@[0]@);
                        match a[0].as_str() {
                            Some(s) => Some(s.to_owned()),
                            None => None,
                        }
                    } else {
                        None
                    }
                },
                _ => None,
            },
        },
    }
}

/// The text itself, where it is JSON.
pub fn checked_json(text: String) -> (r: Option<String>)
    ensures
        opt_view(r) == (if json_read(text@) is Some {
            Some(text@)
        } else {
            None
        }),
{
    match parse(&text) {
        Some(_) => Some(text),
        None => None,
    }
}

/// The sizes of all files together.
pub open spec fn total_size(files: Seq<HfFileEntry>) -> int
    decreases files.len(),
{
    if files.len() == 0 {
        0
    } else {
        total_size(files.drop_last()) + file_size(files.last())
    }
}

/// The first files together are at most as large as all.
proof fn lemma_total_grows(files: Seq<HfFileEntry>, i: int)
    requires
        0 <= i <= files.len(),
    ensures
        0 <= total_size(files.take(i)) <= total_size(files),
    decreases files.len(),
{
    if i == files.len() {
        assert(files.take(i) =~= files);
        if i > 0 {
            lemma_total_grows(files.drop_last(), i - 1);
        }
    } else {
        lemma_total_grows(files.drop_last(), i);
        assert(files.drop_last().take(i) =~= files.take(i));
    }
}

/// The sizes of all files together; `None` where that does not fit 64 bits.
pub fn total_bytes(files: &[HfFileEntry]) -> (r: Option<u64>)
    ensures
        match r {
            Some(n) => n == total_size(files@),
            None => total_size(files@) > u64::MAX,
        },
{
    let mut sum: u64 = 0;
    let mut i: usize = 0;
    assert(files@.take(0) =~= Seq::empty());
    while i < files.len()
        invariant
            i <= files@.len(),
            sum == total_size(files@.take(i as int)),
        decreases files@.len() - i,
    {
        proof {
            assert(files@.take(i + 1).drop_last() =~= files@.take(i as int));
            lemma_total_grows(files@, i + 1);
        }
        let size: u64 = files[i].size.unwrap_or(0);
        if sum > u64::MAX - size {
            return None;
        }
        sum += size;
        i += 1;
    }
    assert(files@.take(i as int) =~= files@);
    Some(sum)
}

/// The paths of all `.gguf` files, in order.
pub open spec fn gguf_paths(files: Seq<HfFileEntry>) -> Seq<Seq<char>>
    decreases files.len(),
{
    if files.len() == 0 {
        Seq::empty()
    } else {
        let before = gguf_paths(files.drop_last());
        if has_suffix(files.last().path@, ".gguf"@) {
            before.push(files.last().path@)
        } else {
            before
        }
    }
}

/// The paths of all `.gguf` files, in order: the first that can be read gives the metadata.
pub fn gguf_files(files: &[HfFileEntry]) -> (r: Vec<String>)
    ensures
        views(r@) == gguf_paths(files@),
{
    let mut out: Vec<String> = Vec::new();
    let mut i: usize = 0;
    assert(views(out@) =~= Seq::empty());
    assert(files@.take(0) =~= Seq::empty());
    while i < files.len()
        invariant
            i <= files@.len(),
            views(out@) == gguf_paths(files@.take(i as int)),
        decreases files@.len() - i,
    {
        assert(files@.take(i + 1).drop_last() =~= files@.take(i as int));
        if ends_with(&files[i].path, ".gguf") {
            let ghost before = out@;
            out.push(files[i].path.clone());
            assert(views(out@) =~= views(before).push(files@[i as int].path@));
        }
        i += 1;
    }
    assert(files@.take(i as int) =~= files@);
    out
}

/// What is stored of a downloaded model.
#[derive(Debug)]
pub struct DownloadedModelRow {
    pub model_id: String,
    pub hf_repo: String,
    pub primary_filename: Option<String>,
    pub mmproj_filename: Option<String>,
    pub size_bytes: i64,
    pub category_id: Option<String>,
    pub backend_type: String,
    pub model_metadata: Option<String>,
    pub gguf_meta: GgufMetadata,
    pub kv_bpt_global: Option<i64>,
    pub kv_bpt_swa: Option<i64>,
    pub runtime_overrides_json: String,
}

/// The runtime overrides that a new model starts with. Sliding-window models without experts can
/// crash while their prompt cache is saved, so they start with the cache off.
pub open spec fn initial_overrides(meta: GgufView) -> Seq<char> {
    let experts = match meta.expert_count {
        Some(n) => n,
        None => 0,
    };
    if meta.sliding_window is Some && experts == 0 {
        "{\"cache_ram_mib\":0}"@
    } else {
        "{}"@
    }
}

/// The runtime overrides that a new model starts with.
pub fn auto_runtime_overrides(meta: &GgufMetadata) -> (r: &'static str)
    ensures
        r@ == initial_overrides(meta@),
{
    if meta.sliding_window.is_some() && meta.expert_count.unwrap_or(0) == 0 {
        "{\"cache_ram_mib\":0}"
    } else {
        "{}"
    }
}

/// What is stored of a downloaded model: its files chosen from `files`, its metadata or none, and
/// the aggregates and overrides that follow from it.
pub fn downloaded_row(
    model_id: String,
    hf_repo: String,
    files: &[HfFileEntry],
    total_downloaded: u64,
    category_id: Option<String>,
    backend_type: Option<String>,
    model_metadata: Option<String>,
    gguf: Option<GgufMetadata>,
) -> (r: DownloadedModelRow)
    requires
        gguf is Some ==> kv_aggregates_fit(gguf->0),
    ensures
        r.model_id == model_id,
        r.hf_repo == hf_repo,
        match r.primary_filename {
            Some(path) => exists|i: int| #[trigger]
                is_primary(files@, i) && path@ == files@[i].path@,
            None => none_ends(files@, ".gguf"@) && none_ends(files@, ".safetensors"@),
        },
        match r.mmproj_filename {
            Some(name) => exists|i: int| #[trigger]
                is_preferred(sorted(mmproj_names(files@)), i) && name@ == sorted(
                    mmproj_names(files@),
                )[i],
            None => mmproj_names(files@).len() == 0,
        },
        r.size_bytes == as_signed(total_downloaded),
        r.category_id == category_id,
        r.backend_type@ == (match backend_type {
            Some(b) => b@,
            None => "llamacpp"@,
        }),
        r.model_metadata == model_metadata,
        r.gguf_meta@ == (match gguf {
            Some(m) => m@,
            None => no_metadata(),
        }),
        (opt_int(r.kv_bpt_global), opt_int(r.kv_bpt_swa)) == kv_aggregates(r.gguf_meta),
        r.runtime_overrides_json@ == initial_overrides(r.gguf_meta@),
{
    let gguf_meta = match gguf {
        Some(m) => m,
        None => GgufMetadata::default(),
    };
    let (kv_bpt_global, kv_bpt_swa) = compute_kv_aggregates(&gguf_meta);
    let overrides = auto_runtime_overrides(&gguf_meta);
    DownloadedModelRow {
        model_id,
        hf_repo,
        primary_filename: detect_primary_file(files),
        mmproj_filename: detect_mmproj_file(files),
        size_bytes: to_signed(total_downloaded),
        category_id,
        backend_type: match backend_type {
            Some(b) => b,
            None => "llamacpp".to_owned(),
        },
        model_metadata,
        gguf_meta,
        kv_bpt_global,
        kv_bpt_swa,
        runtime_overrides_json: overrides.to_owned(),
    }
}

} // verus!
