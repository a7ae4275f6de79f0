//! The course of a download: its steps, where it can fail and what is said then.
use vstd::prelude::*;
use vstd::string::StringExecFns;
use crate::api::downloads::{access_hint, checked_json, hf_http_error_hint};
use crate::json::json_read;
use crate::reply::{error_reply, Reply, ReplyView};
use crate::text::opt_view;

verus! {

/// What went wrong when a repository's records were asked for.
#[derive(Debug)]
pub enum HubFailure {
    /// There was no answer; the reason.
    Unreachable(String),
    /// The answer was not a success: its status, as text, and its body.
    Refused { status: String, body: String },
    /// The answer could not be read: what it should have been, and the reason.
    Unreadable { what: String, reason: String },
}

/// The reply to a request whose search or listing failed.
pub open spec fn hub_reply(f: HubFailure) -> ReplyView {
    match f {
        HubFailure::Unreachable(reason) => error_reply(
            502,
            "HuggingFace API request failed: "@ + reason@,
        ),
        HubFailure::Refused { status, body } => error_reply(
            502,
            "HuggingFace API returned "@ + status@ + ": "@ + body@,
        ),
        HubFailure::Unreadable { what, reason } => error_reply(
            500,
            "Failed to parse "@ + what@ + ": "@ + reason@,
        ),
    }
}

/// The reply to a request whose search or listing failed.
pub fn hub_failure_reply(f: &HubFailure) -> (r: Reply)
    ensures
        r@ == hub_reply(*f),
{
    match f {
        HubFailure::Unreachable(reason) => Reply::error(
            502,
            &"HuggingFace API request failed: ".to_owned().concat(reason),
        ),
        HubFailure::Refused { status, body } => Reply::error(
            502,
            &"HuggingFace API returned ".to_owned().concat(status).concat(": ").concat(body),
        ),
        HubFailure::Unreadable { what, reason } => Reply::error(
            500,
            &"Failed to parse ".to_owned().concat(what).concat(": ").concat(reason),
        ),
    }
}

/// What went wrong in a download; each comes with the reason.
#[derive(Debug)]
pub enum DownloadFailure {
    Client(String),
    List(String),
    /// The listing was refused: the status, as text, and the body.
    ListRefused { status: String, body: String },
    ListUnreadable(String),
    /// A rule was broken; the message says which.
    Rule(String),
    MakeDirectory { dir: String, reason: String },
    MakeParent { path: String, reason: String },
    Fetch { path: String, reason: String },
    /// A file was refused: the status as text and as a number.
    FetchRefused { path: String, status: String, code: u16, has_token: bool },
    CreateFile { dest: String, reason: String },
    Write { path: String, reason: String },
    Stream { path: String, reason: String },
    Register(String),
}

/// A failure in words.
pub open spec fn failure_text(f: DownloadFailure) -> Seq<char> {
    match f {
        DownloadFailure::Client(e) => "HTTP client error: "@ + e@,
        DownloadFailure::List(e) => "Failed to list repo files: "@ + e@,
        DownloadFailure::ListRefused { status, body } => "HuggingFace tree API returned "@ + status@
            + ": "@ + body@,
        DownloadFailure::ListUnreadable(e) => "Failed to parse file listing: "@ + e@,
        DownloadFailure::Rule(e) => e@,
        DownloadFailure::MakeDirectory { dir, reason } => "Failed to create directory "@ + dir@
            + ": "@ + reason@,
        DownloadFailure::MakeParent { path, reason } => "Failed to create directory for "@ + path@
            + ": "@ + reason@,
        DownloadFailure::Fetch { path, reason } => "Failed to download "@ + path@ + ": "@ + reason@,
        DownloadFailure::FetchRefused { path, status, code, has_token } => "Download of "@ + path@
            + " returned HTTP "@ + status@ + access_hint(code, has_token),
        DownloadFailure::CreateFile { dest, reason } => "Failed to create file "@ + dest@ + ": "@
            + reason@,
        DownloadFailure::Write { path, reason } => "Write error for "@ + path@ + ": "@ + reason@,
        DownloadFailure::Stream { path, reason } => "Stream error for "@ + path@ + ": "@ + reason@,
        DownloadFailure::Register(e) => "Download complete but DB registration failed: "@ + e@,
    }
}

/// `head`, a name, a colon and a reason.
fn named_failure(head: &str, name: &str, reason: &str) -> (r: String)
    ensures
        r@ == head@ + name@ + ": "@ + reason@,
{
    head.to_owned().concat(name).concat(": ").concat(reason)
}

impl DownloadFailure {
    /// The failure in words.
    pub fn message(&self) -> (r: String)
        ensures
            r@ == failure_text(*self),
    {
        match self {
            DownloadFailure::Client(e) => "HTTP client error: ".to_owned().concat(e),
            DownloadFailure::List(e) => "Failed to list repo files: ".to_owned().concat(e),
            DownloadFailure::ListRefused { status, body } => named_failure(
                "HuggingFace tree API returned ",
                status,
                body,
            ),
            DownloadFailure::ListUnreadable(e) => "Failed to parse file listing: ".to_owned().concat(
                e,
            ),
            DownloadFailure::Rule(e) => e.clone(),
            DownloadFailure::MakeDirectory { dir, reason } => named_failure(
                "Failed to create directory ",
                dir,
                reason,
            ),
            DownloadFailure::MakeParent { path, reason } => named_failure(
                "Failed to create directory for ",
                path,
                reason,
            ),
            DownloadFailure::Fetch { path, reason } => named_failure(
                "Failed to download ",
                path,
                reason,
            ),
            DownloadFailure::FetchRefused { path, status, code, has_token } => {
                "Download of ".to_owned().concat(path).concat(" returned HTTP ").concat(
                    status,
                ).concat(hf_http_error_hint(*code, *has_token))
            },
            DownloadFailure::CreateFile { dest, reason } => named_failure(
                "Failed to create file ",
                dest,
                reason,
            ),
            DownloadFailure::Write { path, reason } => named_failure(
                "Write error for ",
                path,
                reason,
            ),
            DownloadFailure::Stream { path, reason } => named_failure(
                "Stream error for ",
                path,
                reason,
            ),
            DownloadFailure::Register(e) => {
                "Download complete but DB registration failed: ".to_owned().concat(e)
            },
        }
    }
}

/// A step of a download.
#[derive(Debug, Clone, Copy, PartialEq, Eq, Structural)]
pub enum RunStep {
    /// Build the client.
    Connect,
    /// List the files and record their size.
    List,
    /// Check that the files fit on the disk.
    CheckSpace,
    /// Make the directory.
    MakeDirectory,
    /// Fetch the file with this number.
    Fetch(usize),
    /// Look for the tokenizer's configuration.
    Tokenizer,
    /// Read the metadata of the first GGUF file that can be read.
    Metadata,
    /// Put the model into the database.
    Register,
}

/// What came of a step.
#[derive(Debug)]
pub enum StepResult {
    Done,
    /// The user cancelled the download.
    Cancelled,
    Failed(DownloadFailure),
}

/// What to do after a step.
#[derive(Debug, PartialEq, Eq)]
pub enum NextStep {
    /// Go on with another step.
    Go(RunStep),
    /// Stop, and leave the download as it was cancelled.
    Stop,
    /// Stop, and record the failure.
    Fail(String),
    /// Record that the download is complete.
    Complete,
}

/// The model of what to do after a step.
pub enum NextView {
    Go(RunStep),
    Stop,
    Fail(Seq<char>),
    Complete,
}

impl View for NextStep {
    type V = NextView;

    open spec fn view(&self) -> NextView {
        match self {
            NextStep::Go(s) => NextView::Go(*s),
            NextStep::Stop => NextView::Stop,
            NextStep::Fail(m) => NextView::Fail(m@),
            NextStep::Complete => NextView::Complete,
        }
    }
}

/// What follows a step that was done, in a download of `files` files.
pub open spec fn step_after(step: RunStep, files: usize) -> NextView {
    match step {
        RunStep::Connect => NextView::Go(RunStep::List),
        RunStep::List => NextView::Go(RunStep::CheckSpace),
        RunStep::CheckSpace => NextView::Go(RunStep::MakeDirectory),
        RunStep::MakeDirectory => if files > 0 {
            NextView::Go(RunStep::Fetch(0))
        } else {
            NextView::Go(RunStep::Tokenizer)
        },
        RunStep::Fetch(i) => if i + 1 < files {
            NextView::Go(RunStep::Fetch((i + 1) as usize))
        } else {
            NextView::Go(RunStep::Tokenizer)
        },
        RunStep::Tokenizer => NextView::Go(RunStep::Metadata),
        RunStep::Metadata => NextView::Go(RunStep::Register),
        RunStep::Register => NextView::Complete,
    }
}

/// What follows a step.
pub open spec fn what_follows(step: RunStep, files: usize, result: StepResult) -> NextView {
    match result {
        StepResult::Cancelled => NextView::Stop,
        StepResult::Failed(f) => NextView::Fail(failure_text(f)),
        StepResult::Done => step_after(step, files),
    }
}

/// What follows a step of a download of `files` files.
pub fn next_step(step: RunStep, files: usize, result: &StepResult) -> (r: NextStep)
    ensures
        r@ == what_follows(step, files, *result),
{
    match result {
        StepResult::Cancelled => NextStep::Stop,
        StepResult::Failed(f) => NextStep::Fail(f.message()),
        StepResult::Done => match step {
            RunStep::Connect => NextStep::Go(RunStep::List),
            RunStep::List => NextStep::Go(RunStep::CheckSpace),
            RunStep::CheckSpace => NextStep::Go(RunStep::MakeDirectory),
            RunStep::MakeDirectory => if files > 0 {
                NextStep::Go(RunStep::Fetch(0))
            } else {
                NextStep::Go(RunStep::Tokenizer)
            },
            RunStep::Fetch(i) => if i < files && i < files - 1 {
                NextStep::Go(RunStep::Fetch(i + 1))
            } else {
                NextStep::Go(RunStep::Tokenizer)
            },
            RunStep::Tokenizer => NextStep::Go(RunStep::Metadata),
            RunStep::Metadata => NextStep::Go(RunStep::Register),
            RunStep::Register => NextStep::Complete,
        },
    }
}

/// The `n`th step of a download in which everything works.
pub open spec fn nth_step(files: usize, n: int) -> RunStep {
    if n <= 0 {
        RunStep::Connect
    } else if n == 1 {
        RunStep::List
    } else if n == 2 {
        RunStep::CheckSpace
    } else if n == 3 {
        RunStep::MakeDirectory
    } else if n < 4 + files {
        RunStep::Fetch((n - 4) as usize)
    } else if n == 4 + files {
        RunStep::Tokenizer
    } else if n == 5 + files {
        RunStep::Metadata
    } else {
        RunStep::Register
    }
}

/// A download in which everything works fetches every file once, in order, and only then registers
/// the model and is complete.
pub proof fn law_every_file_is_fetched_once(files: usize, n: int)
    requires
        0 <= n <= 6 + files,
    ensures
        step_after(nth_step(files, n), files) == if n == 6 + files {
            NextView::Complete
        } else {
            NextView::Go(nth_step(files, n + 1))
        },
        forall|i: int| 0 <= i < files ==> #[trigger] nth_step(files, i + 4) == RunStep::Fetch(
            i as usize,
        ),
{
}

/// A download is complete only after the model was registered, and a failure or a cancellation
/// ends it at once.
pub proof fn law_only_registered_models_are_complete(
    step: RunStep,
    files: usize,
    result: StepResult,
)
    ensures
        what_follows(step, files, result) is Complete <==> step is Register && result is Done,
        result is Failed ==> what_follows(step, files, result) is Fail,
        result is Cancelled ==> what_follows(step, files, result) is Stop,
{
}

/// Where a tokenizer's configuration can come from, in the order in which it is looked for.
#[derive(Debug, Clone, Copy, PartialEq, Eq, Structural)]
pub enum TokenizerSource {
    /// The files that were downloaded.
    Local,
    /// The repository.
    Repository,
    /// The model that the repository says it is derived from.
    BaseModel,
}

/// How the search for a tokenizer's configuration goes on.
#[derive(Debug, PartialEq, Eq)]
pub enum TokenizerSearch {
    Found(String),
    Look(TokenizerSource),
    Missing,
}

/// The source to look at after another.
pub open spec fn source_after(source: TokenizerSource) -> Option<TokenizerSource> {
    match source {
        TokenizerSource::Local => Some(TokenizerSource::Repository),
        TokenizerSource::Repository => Some(TokenizerSource::BaseModel),
        TokenizerSource::BaseModel => None,
    }
}

/// How the search for a tokenizer's configuration goes on after a source gave `found`, which is
/// JSON: the first that is found is taken.
pub fn search_on(source: TokenizerSource, found: Option<String>) -> (r: TokenizerSearch)
    ensures
        match found {
            Some(text) => r == TokenizerSearch::Found(text),
            None => match source_after(source) {
                Some(next) => r == TokenizerSearch::Look(next),
                None => r is Missing,
            },
        },
{
    match found {
        Some(text) => TokenizerSearch::Found(text),
        None => match source {
            TokenizerSource::Local => TokenizerSearch::Look(TokenizerSource::Repository),
            TokenizerSource::Repository => TokenizerSearch::Look(TokenizerSource::BaseModel),
            TokenizerSource::BaseModel => TokenizerSearch::Missing,
        },
    }
}

/// How the search for a tokenizer's configuration goes on after a source gave a text, or nothing.
/// A text that is not JSON counts as nothing.
pub fn search_tokenizer(source: TokenizerSource, text: Option<String>) -> (r: TokenizerSearch)
    ensures
        match r {
            TokenizerSearch::Found(t) => text is Some && json_read(text->0@) is Some && t@
                == text->0@,
            TokenizerSearch::Look(next) => !(text is Some && json_read(text->0@) is Some)
                && source_after(source) == Some(next),
            TokenizerSearch::Missing => !(text is Some && json_read(text->0@) is Some)
                && source_after(source) is None,
        },
{
    let found = match text {
        Some(t) => checked_json(t),
        None => None,
    };
    assert(opt_view(found) == if text is Some && json_read(text->0@) is Some {
        Some(text->0@)
    } else {
        None
    });
    search_on(source, found)
}

} // verus!
