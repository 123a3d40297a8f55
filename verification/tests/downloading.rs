use mediafire_downloader::download::{
    DownloadAction, DownloadEvent, DownloadStep, DownloadTask, Method, ResponseInfo,
};
use mediafire_downloader::types::{ApiFailure, DownloadError, DownloadJob, DownloadProgress, JobPath};
use std::path::PathBuf;

fn task(size: u64) -> DownloadTask {
    let job = DownloadJob::new(
        "f.bin".to_string(),
        JobPath::new(PathBuf::from("out")).join(&"f.bin".to_string()),
        size,
        "https://www.mediafire.com/file/abc/f.bin".to_string(),
        "0".repeat(32),
        false,
        md_api::Api::new(1).unwrap(),
        reqwest::Client::new(),
    );
    DownloadTask::new(&job)
}

fn response(status: u16, content_type: Option<&str>, ukey: Option<&str>) -> ResponseInfo {
    ResponseInfo {
        status,
        content_type: content_type.map(|s| s.to_string()),
        ukey: ukey.map(|s| s.to_string()),
        error_text: String::new(),
    }
}

fn expect_send(step: &DownloadStep) -> (Method, String, Option<String>, Option<String>) {
    match &step.action {
        DownloadAction::Send(r) => (r.method, r.url.clone(), r.range.clone(), r.body.clone()),
        other => panic!("expected a request, got {}", describe(other)),
    }
}

fn describe(a: &DownloadAction) -> &'static str {
    match a {
        DownloadAction::PrepareDirectory => "prepare",
        DownloadAction::InspectExisting => "inspect",
        DownloadAction::VerifyHash => "verify",
        DownloadAction::Send(_) => "send",
        DownloadAction::ReadPage => "read page",
        DownloadAction::ResolveMalwareLink { .. } => "resolve",
        DownloadAction::OpenFile { .. } => "open",
        DownloadAction::ReadChunk => "read chunk",
        DownloadAction::WriteChunk => "write chunk",
        DownloadAction::Flush => "flush",
        DownloadAction::RemoveFile => "remove",
        DownloadAction::Finish(_) => "finish",
        DownloadAction::Unexpected => "unexpected",
    }
}

#[test]
fn fresh_download_full_run() {
    let mut t = task(10);
    let s = t.step(DownloadEvent::Begin);
    assert_eq!(s.report, Some(DownloadProgress::TryResuming));
    assert!(matches!(s.action, DownloadAction::PrepareDirectory));
    assert!(matches!(t.step(DownloadEvent::DirectoryReady(true)).action, DownloadAction::InspectExisting));
    let s = t.step(DownloadEvent::Existing(None));
    assert_eq!(s.report, Some(DownloadProgress::GettingLink));
    assert_eq!(
        expect_send(&s),
        (Method::Get, "https://www.mediafire.com/file/abc/f.bin".to_string(), None, None)
    );
    let s = t.step(DownloadEvent::Responded(Ok(response(200, Some("application/zip"), None))));
    assert!(matches!(s.action, DownloadAction::OpenFile { append: false }));
    assert!(matches!(t.step(DownloadEvent::FileOpened(true)).action, DownloadAction::ReadChunk));
    assert!(matches!(t.step(DownloadEvent::ChunkRead(Ok(Some(4)))).action, DownloadAction::WriteChunk));
    let s = t.step(DownloadEvent::ChunkWritten(true));
    assert_eq!(s.report, Some(DownloadProgress::Downloading(4, 10)));
    t.step(DownloadEvent::ChunkRead(Ok(Some(6))));
    let s = t.step(DownloadEvent::ChunkWritten(true));
    assert_eq!(s.report, Some(DownloadProgress::Downloading(10, 10)));
    assert!(matches!(t.step(DownloadEvent::ChunkRead(Ok(None))).action, DownloadAction::Flush));
    let s = t.step(DownloadEvent::Flushed(true));
    assert_eq!(s.report, Some(DownloadProgress::CheckingHash));
    assert!(matches!(s.action, DownloadAction::VerifyHash));
    let s = t.step(DownloadEvent::HashChecked(Ok(())));
    assert_eq!(s.report, Some(DownloadProgress::Done));
    assert!(matches!(s.action, DownloadAction::Finish(Ok(()))));
    assert!(matches!(t.step(DownloadEvent::Begin).action, DownloadAction::Unexpected));
}

#[test]
fn complete_existing_file_is_only_verified() {
    let mut t = task(10);
    t.step(DownloadEvent::Begin);
    t.step(DownloadEvent::DirectoryReady(true));
    let s = t.step(DownloadEvent::Existing(Some(10)));
    assert_eq!(s.report, Some(DownloadProgress::CheckingHash));
    assert!(matches!(s.action, DownloadAction::VerifyHash));
    let s = t.step(DownloadEvent::HashChecked(Ok(())));
    assert_eq!(s.report, Some(DownloadProgress::Done));
    assert!(matches!(s.action, DownloadAction::Finish(Ok(()))));
}

#[test]
fn corrupt_existing_file_is_downloaded_afresh() {
    let mut t = task(10);
    t.step(DownloadEvent::Begin);
    t.step(DownloadEvent::DirectoryReady(true));
    t.step(DownloadEvent::Existing(Some(10)));
    let s = t.step(DownloadEvent::HashChecked(Err(DownloadError::HashMismatch)));
    assert_eq!(s.report, Some(DownloadProgress::GettingLink));
    assert_eq!(expect_send(&s).2, None);
}

#[test]
fn partial_file_resumes_with_range() {
    let mut t = task(100);
    t.step(DownloadEvent::Begin);
    t.step(DownloadEvent::DirectoryReady(true));
    let s = t.step(DownloadEvent::Existing(Some(40)));
    assert_eq!(expect_send(&s).2, Some("bytes=40-".to_string()));
    let s = t.step(DownloadEvent::Responded(Ok(response(206, None, None))));
    assert!(matches!(s.action, DownloadAction::OpenFile { append: true }));
    t.step(DownloadEvent::FileOpened(true));
    t.step(DownloadEvent::ChunkRead(Ok(Some(60))));
    assert_eq!(t.step(DownloadEvent::ChunkWritten(true)).report, Some(DownloadProgress::Downloading(100, 100)));
}

#[test]
fn resume_ignored_by_server_restarts_file() {
    let mut t = task(100);
    t.step(DownloadEvent::Begin);
    t.step(DownloadEvent::DirectoryReady(true));
    t.step(DownloadEvent::Existing(Some(40)));
    let s = t.step(DownloadEvent::Responded(Ok(response(200, None, None))));
    assert!(matches!(s.action, DownloadAction::OpenFile { append: false }));
    t.step(DownloadEvent::FileOpened(true));
    t.step(DownloadEvent::ChunkRead(Ok(Some(5))));
    assert_eq!(t.step(DownloadEvent::ChunkWritten(true)).report, Some(DownloadProgress::Downloading(5, 100)));
}

#[test]
fn empty_existing_file_is_not_resumed() {
    let mut t = task(100);
    t.step(DownloadEvent::Begin);
    t.step(DownloadEvent::DirectoryReady(true));
    let s = t.step(DownloadEvent::Existing(Some(0)));
    assert_eq!(expect_send(&s).2, None);
}

#[test]
fn html_page_redirects_to_link() {
    let mut t = task(10);
    t.step(DownloadEvent::Begin);
    t.step(DownloadEvent::DirectoryReady(true));
    t.step(DownloadEvent::Existing(Some(3)));
    let s = t.step(DownloadEvent::Responded(Ok(response(200, Some("text/html; charset=UTF-8"), None))));
    assert!(matches!(s.action, DownloadAction::ReadPage));
    let page = "aria-label=\"Download file\" href=\"https://download2.mediafire.com/x/f.bin\" id=\"downloadButton\"";
    let s = t.step(DownloadEvent::PageRead(Ok(page.to_string())));
    assert_eq!(
        expect_send(&s),
        (Method::Get, "https://download2.mediafire.com/x/f.bin".to_string(), Some("bytes=3-".to_string()), None)
    );
    // The redirected response is not checked for HTML again.
    let s = t.step(DownloadEvent::Responded(Ok(response(200, Some("text/html"), None))));
    assert!(matches!(s.action, DownloadAction::OpenFile { append: false }));
}

#[test]
fn malware_page_resolved_through_api() {
    let mut t = task(10);
    t.step(DownloadEvent::Begin);
    t.step(DownloadEvent::DirectoryReady(true));
    t.step(DownloadEvent::Existing(None));
    t.step(DownloadEvent::Responded(Ok(response(200, Some("text/html"), Some("U1")))));
    let page = "data-security-token=\"t1\" {pass: 'pw'} data-security-token=\"t2\"";
    let s = t.step(DownloadEvent::PageRead(Ok(page.to_string())));
    match &s.action {
        DownloadAction::ResolveMalwareLink { ukey, security_token } => {
            assert_eq!(ukey, "U1");
            assert_eq!(security_token, "t2");
        }
        other => panic!("unexpected {}", describe(other)),
    }
    let s = t.step(DownloadEvent::MalwareLink(Ok("https://dl.example/f".to_string())));
    assert_eq!(
        expect_send(&s),
        (Method::Post, "https://dl.example/f".to_string(), None, Some("pass=pw".to_string()))
    );
}

#[test]
fn malware_page_without_ukey_fails() {
    let mut t = task(10);
    t.step(DownloadEvent::Begin);
    t.step(DownloadEvent::DirectoryReady(true));
    t.step(DownloadEvent::Existing(None));
    t.step(DownloadEvent::Responded(Ok(response(200, Some("text/html"), None))));
    let s = t.step(DownloadEvent::PageRead(Ok("data-security-token=\"a\" {pass: 'p'} data-security-token=\"b\"".to_string())));
    assert!(matches!(s.action, DownloadAction::Finish(Err(DownloadError::LinkExtractionError))));
}

#[test]
fn page_without_link_or_token_fails() {
    let mut t = task(10);
    t.step(DownloadEvent::Begin);
    t.step(DownloadEvent::DirectoryReady(true));
    t.step(DownloadEvent::Existing(None));
    t.step(DownloadEvent::Responded(Ok(response(200, Some("text/html"), Some("u")))));
    let s = t.step(DownloadEvent::PageRead(Ok("<html></html>".to_string())));
    assert!(matches!(s.action, DownloadAction::Finish(Err(DownloadError::LinkExtractionError))));
}

#[test]
fn error_status_fails_with_network_error() {
    let mut t = task(10);
    t.step(DownloadEvent::Begin);
    t.step(DownloadEvent::DirectoryReady(true));
    t.step(DownloadEvent::Existing(None));
    let mut r = response(404, None, None);
    r.error_text = "HTTP status client error (404 Not Found)".to_string();
    let s = t.step(DownloadEvent::Responded(Ok(r)));
    match s.action {
        DownloadAction::Finish(Err(DownloadError::ApiError(ApiFailure::NetworkError(m)))) => {
            assert_eq!(m, "HTTP status client error (404 Not Found)")
        }
        other => panic!("unexpected {}", describe(&other)),
    }
}

#[test]
fn failures_of_each_phase() {
    let mut t = task(10);
    t.step(DownloadEvent::Begin);
    assert!(matches!(t.step(DownloadEvent::DirectoryReady(false)).action, DownloadAction::Finish(Err(DownloadError::IoError))));

    let mut t = task(10);
    t.step(DownloadEvent::Begin);
    t.step(DownloadEvent::DirectoryReady(true));
    t.step(DownloadEvent::Existing(None));
    assert!(matches!(
        t.step(DownloadEvent::Responded(Err("refused".to_string()))).action,
        DownloadAction::Finish(Err(DownloadError::ApiError(ApiFailure::NetworkError(_))))
    ));

    let mut t = task(10);
    t.step(DownloadEvent::Begin);
    t.step(DownloadEvent::DirectoryReady(true));
    t.step(DownloadEvent::Existing(None));
    t.step(DownloadEvent::Responded(Ok(response(200, None, None))));
    assert!(matches!(t.step(DownloadEvent::FileOpened(false)).action, DownloadAction::Finish(Err(DownloadError::IoError))));
}

#[test]
fn failed_verification_removes_file() {
    let mut t = task(2);
    t.step(DownloadEvent::Begin);
    t.step(DownloadEvent::DirectoryReady(true));
    t.step(DownloadEvent::Existing(None));
    t.step(DownloadEvent::Responded(Ok(response(200, None, None))));
    t.step(DownloadEvent::FileOpened(true));
    t.step(DownloadEvent::ChunkRead(Ok(None)));
    t.step(DownloadEvent::Flushed(true));
    let s = t.step(DownloadEvent::HashChecked(Err(DownloadError::HashMismatch)));
    assert!(s.report.is_none());
    assert!(matches!(s.action, DownloadAction::RemoveFile));
    let s = t.step(DownloadEvent::Removed);
    assert!(matches!(s.action, DownloadAction::Finish(Err(DownloadError::HashMismatch))));
}

#[test]
fn status_range_decides_failure() {
    for (status, fails) in [(399u16, false), (400, true), (500, true), (599, true), (600, false)] {
        let mut t = task(10);
        t.step(DownloadEvent::Begin);
        t.step(DownloadEvent::DirectoryReady(true));
        t.step(DownloadEvent::Existing(None));
        let mut r = response(status, None, None);
        r.error_text = format!("status {}", status);
        let s = t.step(DownloadEvent::Responded(Ok(r)));
        match s.action {
            DownloadAction::Finish(Err(DownloadError::ApiError(ApiFailure::NetworkError(m)))) => {
                assert!(fails);
                assert_eq!(m, format!("status {}", status));
            }
            DownloadAction::OpenFile { append } => {
                assert!(!fails);
                assert!(!append);
            }
            other => panic!("unexpected {}", describe(&other)),
        }
    }
}
