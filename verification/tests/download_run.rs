//! The course of a download.
use sovereign_engine::api::download_run::{
    hub_failure_reply, next_step, search_on, search_tokenizer, DownloadFailure, HubFailure,
    NextStep, RunStep, StepResult, TokenizerSearch, TokenizerSource,
};

#[test]
fn every_file_is_fetched_once() {
    let mut step = RunStep::Connect;
    let mut taken = vec![step];
    while let NextStep::Go(next) = next_step(step, 2, &StepResult::Done) {
        step = next;
        taken.push(step);
    }
    assert_eq!(
        taken,
        vec![
            RunStep::Connect,
            RunStep::List,
            RunStep::CheckSpace,
            RunStep::MakeDirectory,
            RunStep::Fetch(0),
            RunStep::Fetch(1),
            RunStep::Tokenizer,
            RunStep::Metadata,
            RunStep::Register,
        ]
    );
    assert_eq!(next_step(step, 2, &StepResult::Done), NextStep::Complete);
    assert_eq!(
        next_step(RunStep::MakeDirectory, 0, &StepResult::Done),
        NextStep::Go(RunStep::Tokenizer)
    );
}

#[test]
fn failures_and_cancellations_end_a_download() {
    assert_eq!(
        next_step(RunStep::Fetch(0), 2, &StepResult::Cancelled),
        NextStep::Stop
    );
    let failed = StepResult::Failed(DownloadFailure::Register("locked".to_string()));
    assert_eq!(
        next_step(RunStep::Register, 2, &failed),
        NextStep::Fail("Download complete but DB registration failed: locked".to_string())
    );
}

#[test]
fn failures_in_words() {
    let s = |t: &str| t.to_string();
    let cases = [
        (DownloadFailure::Client(s("e")), "HTTP client error: e"),
        (DownloadFailure::List(s("e")), "Failed to list repo files: e"),
        (
            DownloadFailure::ListRefused {
                status: s("404 Not Found"),
                body: s("b"),
            },
            "HuggingFace tree API returned 404 Not Found: b",
        ),
        (
            DownloadFailure::ListUnreadable(s("e")),
            "Failed to parse file listing: e",
        ),
        (DownloadFailure::Rule(s("No files")), "No files"),
        (
            DownloadFailure::MakeDirectory {
                dir: s("/d"),
                reason: s("e"),
            },
            "Failed to create directory /d: e",
        ),
        (
            DownloadFailure::MakeParent {
                path: s("p"),
                reason: s("e"),
            },
            "Failed to create directory for p: e",
        ),
        (
            DownloadFailure::Fetch {
                path: s("p"),
                reason: s("e"),
            },
            "Failed to download p: e",
        ),
        (
            DownloadFailure::FetchRefused {
                path: s("p"),
                status: s("403 Forbidden"),
                code: 403,
                has_token: true,
            },
            "Download of p returned HTTP 403 Forbidden — HF_TOKEN may lack access to this gated model",
        ),
        (
            DownloadFailure::CreateFile {
                dest: s("/d/p"),
                reason: s("e"),
            },
            "Failed to create file /d/p: e",
        ),
        (
            DownloadFailure::Write {
                path: s("p"),
                reason: s("e"),
            },
            "Write error for p: e",
        ),
        (
            DownloadFailure::Stream {
                path: s("p"),
                reason: s("e"),
            },
            "Stream error for p: e",
        ),
    ];
    for (failure, words) in cases {
        assert_eq!(failure.message(), words);
    }
}

#[test]
fn failures_of_the_hub() {
    let r = hub_failure_reply(&HubFailure::Unreachable("e".to_string()));
    assert_eq!(r.status, 502);
    assert_eq!(
        r.body.get_str("error"),
        Some("HuggingFace API request failed: e")
    );
    let r = hub_failure_reply(&HubFailure::Refused {
        status: "500 Internal Server Error".to_string(),
        body: "b".to_string(),
    });
    assert_eq!(
        r.body.get_str("error"),
        Some("HuggingFace API returned 500 Internal Server Error: b")
    );
    let r = hub_failure_reply(&HubFailure::Unreadable {
        what: "file listing".to_string(),
        reason: "e".to_string(),
    });
    assert_eq!(r.status, 500);
    assert_eq!(
        r.body.get_str("error"),
        Some("Failed to parse file listing: e")
    );
}

#[test]
fn tokenizers_are_looked_for_in_order() {
    assert_eq!(
        search_tokenizer(TokenizerSource::Local, Some("{}".to_string())),
        TokenizerSearch::Found("{}".to_string())
    );
    assert_eq!(
        search_tokenizer(TokenizerSource::Local, Some("<html>".to_string())),
        TokenizerSearch::Look(TokenizerSource::Repository)
    );
    assert_eq!(
        search_tokenizer(TokenizerSource::Repository, None),
        TokenizerSearch::Look(TokenizerSource::BaseModel)
    );
    assert_eq!(
        search_on(TokenizerSource::BaseModel, None),
        TokenizerSearch::Missing
    );
}
