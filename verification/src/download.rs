//! Downloading one job: resuming a partial file, resolving the download link
//! (also through MediaFire's HTML and malware-warning pages), streaming the
//! body to disk and verifying the file's hash.
//!
//! The decisions form a state machine, [`DownloadTask`]: each call of
//! [`DownloadTask::step`] takes the outcome of the last action and says what
//! to report and what to do next.

use vstd::prelude::*;
use crate::text::{chars_of, decimal, has_prefix, has_prefix_exec, push_decimal, string_of};
use crate::types::download_error::{ApiFailure, DownloadError};
use crate::types::download_job::DownloadJob;
use crate::types::download_progress::DownloadProgress;
use crate::utils::{
    malware_token_and_pass, normal_html_link, try_extract_link_from_normal_html,
    try_extract_security_token_from_malware_html,
};

verus! {

broadcast use vstd::string::group_string_axioms;

/// An HTTP method.
#[derive(Debug, Clone, Copy, PartialEq, Eq, Structural)]
pub enum Method {
    Get,
    Post,
}

/// A request to send.
pub struct HttpRequest {
    pub method: Method,
    pub url: String,
    /// The value of the `Range` header, when resuming.
    pub range: Option<String>,
    /// The request body, if any.
    pub body: Option<String>,
}

/// What the library needs to know of a response.
pub struct ResponseInfo {
    /// The status code.
    pub status: u16,
    /// The `Content-Type` header as text, if present and visible ASCII.
    pub content_type: Option<String>,
    /// The `ukey` of the `Set-Cookie` header (see `extract_ukey`).
    pub ukey: Option<String>,
    /// The text that describes the status as an error (used when it is a
    /// client or server error status).
    pub error_text: String,
}

/// The outcome of the last action.
pub enum DownloadEvent {
    /// The download starts.
    Begin,
    /// The parent directory exists now, or could not be created.
    DirectoryReady(bool),
    /// The size of the file already at the job's path, if there is one.
    Existing(Option<u64>),
    /// The outcome of verifying the file against its expected hash.
    HashChecked(Result<(), DownloadError>),
    /// The response to the last request, or the text of the failure to send it.
    Responded(Result<ResponseInfo, String>),
    /// The body of an HTML response, or the text of the failure to read it.
    PageRead(Result<String, String>),
    /// The download link that the API gave for a malware-flagged file.
    MalwareLink(Result<String, ApiFailure>),
    /// The file is open for writing, or could not be opened.
    FileOpened(bool),
    /// The length of the next chunk of the body, `None` at its end, or the
    /// text of the failure to read it.
    ChunkRead(Result<Option<u64>, String>),
    /// The chunk was written, or could not be.
    ChunkWritten(bool),
    /// The file was flushed, or could not be.
    Flushed(bool),
    /// The file was removed (or its removal failed, which is ignored).
    Removed,
}

/// What to do next.
pub enum DownloadAction {
    /// Create the parent directory of the job's path if it is missing.
    PrepareDirectory,
    /// Look up the size of any file at the job's path.
    InspectExisting,
    /// Verify the file at the job's path against the expected hash.
    VerifyHash,
    /// Send this request.
    Send(HttpRequest),
    /// Read the body of the last response as text.
    ReadPage,
    /// Ask the API for the download link of a malware-flagged file.
    ResolveMalwareLink { ukey: String, security_token: String },
    /// Open the job's path for writing: for appending, or truncated.
    OpenFile { append: bool },
    /// Read the next chunk of the response body.
    ReadChunk,
    /// Write the chunk just read.
    WriteChunk,
    /// Flush the file.
    Flush,
    /// Remove the file at the job's path.
    RemoveFile,
    /// The download is over, with this outcome.
    Finish(Result<(), DownloadError>),
    /// The event does not answer the awaited action; nothing changed.
    Unexpected,
}

/// What to report, and what to do next.
pub struct DownloadStep {
    pub report: Option<DownloadProgress>,
    pub action: DownloadAction,
}

/// Where a download stands.
pub enum DownloadPhase {
    Start,
    PreparingDirectory,
    Inspecting,
    /// Verifying a file that already has the expected size.
    CheckingExisting,
    /// Awaiting the response to the request for the download link (`first`)
    /// or to the request made after resolving an HTML page.
    AwaitingResponse { first: bool },
    ReadingPage,
    ResolvingMalware,
    Opening,
    Streaming,
    Writing,
    Flushing,
    /// Verifying the downloaded file.
    CheckingDownload,
    /// Removing a file that failed verification, before failing with the error.
    Removing(DownloadError),
    Finished,
}

/// The state of one download.
pub struct DownloadTask {
    pub phase: DownloadPhase,
    /// The expected file size.
    pub size: u64,
    /// The download link.
    pub link: String,
    /// Whether the download resumes a partial file.
    pub resume: bool,
    /// The byte offset the download resumes from.
    pub start: u64,
    /// The bytes in the file so far.
    pub downloaded: u64,
    /// The length of the chunk read and not yet written.
    pub chunk: u64,
    /// The `ukey` of the HTML page's response.
    pub ukey: Option<String>,
    /// The password found on a malware-warning page.
    pub pass: String,
}

/// `b` keeps `a`'s decision to resume, its offset, the page's `ukey` and the
/// password.
pub open spec fn keeps_request(a: DownloadTask, b: DownloadTask) -> bool {
    &&& b.resume == a.resume
    &&& b.start == a.start
    &&& b.ukey == a.ukey
    &&& b.pass == a.pass
}

/// `b` keeps `a`'s byte counts.
pub open spec fn keeps_counts(a: DownloadTask, b: DownloadTask) -> bool {
    &&& b.downloaded == a.downloaded
    &&& b.chunk == a.chunk
}

/// The value of the `Range` header that resumes from `start`.
pub open spec fn range_value(start: u64) -> Seq<char> {
    "bytes="@ + decimal(start as nat) + "-"@
}

/// `r` is a request with the given method, URL and body that resumes from
/// `start` exactly when `resume` holds.
pub open spec fn is_request(
    r: HttpRequest,
    method: Method,
    url: Seq<char>,
    resume: bool,
    start: u64,
    body: Option<Seq<char>>,
) -> bool {
    &&& r.method == method
    &&& r.url@ == url
    &&& (if resume {
        r.range matches Some(v) && v@ == range_value(start)
    } else {
        r.range is None
    })
    &&& match body {
        Some(b) => r.body matches Some(v) && v@ == b,
        None => r.body is None,
    }
}

/// A client or server error status.
pub open spec fn is_error_status(s: u16) -> bool {
    400 <= s <= 599
}

/// The `Content-Type` header marks an HTML page.
pub open spec fn is_html(content_type: Option<String>) -> bool {
    content_type matches Some(t) && has_prefix(t@, "text/html"@)
}

/// Whether a `Content-Type` marks an HTML page.
fn html_content(content_type: &Option<String>) -> (r: bool)
    ensures
        r == is_html(*content_type),
{
    match content_type {
        None => false,
        Some(t) => has_prefix_exec(&chars_of(t.as_str()), &chars_of("text/html")),
    }
}

/// A step that reports `report` and does `action`.
fn step_of(report: Option<DownloadProgress>, action: DownloadAction) -> (s: DownloadStep)
    ensures
        s.report == report,
        s.action == action,
{
    DownloadStep { report, action }
}

/// Builds the request for `url`, resuming from `start` when `resume` holds.
fn make_request(method: Method, url: String, resume: bool, start: u64, body: Option<String>) -> (r: HttpRequest)
    ensures
        is_request(r, method, url@, resume, start, match body {
            Some(b) => Some(b@),
            None => None,
        }),
{
    let range = if resume {
        let mut v = chars_of("bytes=");
        push_decimal(&mut v, start);
        let dash = chars_of("-");
        let mut i: usize = 0;
        let ghost pre = v@;
        while i < dash.len()
            invariant
                i <= dash.len(),
                v@ == pre + dash@.subrange(0, i as int),
            decreases dash.len() - i,
        {
            v.push(dash[i]);
            i = i + 1;
            assert(v@ =~= pre + dash@.subrange(0, i as int));
        }
        assert(dash@.subrange(0, dash.len() as int) =~= dash@);
        Some(string_of(&v))
    } else {
        None
    };
    HttpRequest { method, url, range, body }
}

impl DownloadTask {
    /// A download of `job`, not yet begun.
    pub fn new(job: &DownloadJob) -> (t: DownloadTask)
        ensures
            t.phase is Start,
            t.size == job.size,
            t.link@ == job.download_link@,
            t.downloaded == 0,
    {
        DownloadTask {
            phase: DownloadPhase::Start,
            size: job.size,
            link: job.download_link.clone(),
            resume: false,
            start: 0,
            downloaded: 0,
            chunk: 0,
            ukey: None,
            pass: String::new(),
        }
    }

    /// The task is well formed: a chunk awaiting its write fits the counter.
    pub open spec fn wf(&self) -> bool {
        self.phase is Writing ==> self.downloaded + self.chunk <= u64::MAX
    }

    /// Takes the outcome of the last action; says what to report and what to
    /// do next.
    ///
    /// The download creates the job's directory, then looks at any file
    /// already at its path: one of the expected size is verified and, when it
    /// matches, the download is done; otherwise a partial file is resumed
    /// from its end with a `Range` request. A response that is an HTML page
    /// is read and the real link taken from it, or for a malware-warning page
    /// resolved through the API and posted the page's password. The body is
    /// streamed into the file (appended when the server honours the range),
    /// which is then verified; a file that fails verification is removed.
    pub fn step(&mut self, event: DownloadEvent) -> (r: DownloadStep)
        requires
            old(self).wf(),
            old(self).phase is Streaming ==> (event matches DownloadEvent::ChunkRead(Ok(Some(n)))
                ==> old(self).downloaded + n <= u64::MAX),
        ensures
            final(self).wf(),
            final(self).size == old(self).size,
            final(self).link == old(self).link,
            // A download succeeds only on a file that has just passed verification,
            // and it is reported done exactly when it succeeds.
            r.action == DownloadAction::Finish(Ok(())) ==> event matches DownloadEvent::HashChecked(
                Ok(_),
            ),
            r.report == Some(DownloadProgress::Done) <==> r.action == DownloadAction::Finish(Ok(())),
            // A finished download takes no further step.
            old(self).phase is Finished ==> r.action is Unexpected && *final(self) == *old(self),
            match (old(self).phase, event) {
                (DownloadPhase::Start, DownloadEvent::Begin) => {
                    &&& r.report == Some(DownloadProgress::TryResuming)
                    &&& r.action is PrepareDirectory
                    &&& final(self).phase is PreparingDirectory
                    &&& keeps_request(*old(self), *final(self))
                    &&& keeps_counts(*old(self), *final(self))
                },
                (DownloadPhase::PreparingDirectory, DownloadEvent::DirectoryReady(ok)) => {
                    &&& r.report is None
                    &&& keeps_request(*old(self), *final(self))
                    &&& keeps_counts(*old(self), *final(self))
                    &&& if ok {
                        &&& r.action is InspectExisting
                        &&& final(self).phase is Inspecting
                    } else {
                        &&& r.action == DownloadAction::Finish(Err(DownloadError::IoError))
                        &&& final(self).phase is Finished
                    }
                },
                (DownloadPhase::Inspecting, DownloadEvent::Existing(existing)) => {
                    &&& final(self).ukey == old(self).ukey
                    &&& final(self).pass == old(self).pass
                    &&& keeps_counts(*old(self), *final(self))
                    &&& if existing == Some(old(self).size) {
                        &&& r.report == Some(DownloadProgress::CheckingHash)
                        &&& r.action is VerifyHash
                        &&& final(self).phase is CheckingExisting
                        &&& keeps_request(*old(self), *final(self))
                    } else {
                        let (resume, start) = match existing {
                            Some(len) => (len > 0, len),
                            None => (false, 0u64),
                        };
                        &&& r.report == Some(DownloadProgress::GettingLink)
                        &&& r.action matches DownloadAction::Send(req) && is_request(
                            req,
                            Method::Get,
                            old(self).link@,
                            resume,
                            start,
                            None,
                        )
                        &&& final(self).resume == resume
                        &&& final(self).start == start
                        &&& final(self).phase == (DownloadPhase::AwaitingResponse { first: true })
                    }
                },
                (DownloadPhase::CheckingExisting, DownloadEvent::HashChecked(checked)) => {
                    &&& final(self).ukey == old(self).ukey
                    &&& final(self).pass == old(self).pass
                    &&& keeps_counts(*old(self), *final(self))
                    &&& if checked is Ok {
                        &&& r.report == Some(DownloadProgress::Done)
                        &&& r.action == DownloadAction::Finish(Ok(()))
                        &&& final(self).phase is Finished
                        &&& keeps_request(*old(self), *final(self))
                    } else {
                        &&& r.report == Some(DownloadProgress::GettingLink)
                        &&& r.action matches DownloadAction::Send(req) && is_request(
                            req,
                            Method::Get,
                            old(self).link@,
                            false,
                            0,
                            None,
                        )
                        &&& !final(self).resume
                        &&& final(self).start == 0
                        &&& final(self).phase == (DownloadPhase::AwaitingResponse { first: true })
                    }
                },
                (DownloadPhase::AwaitingResponse { first }, DownloadEvent::Responded(res)) => {
                    &&& r.report is None
                    &&& final(self).resume == old(self).resume
                    &&& final(self).start == old(self).start
                    &&& final(self).pass == old(self).pass
                    &&& final(self).chunk == old(self).chunk
                    &&& match res {
                        Err(m) => {
                            &&& r.action == DownloadAction::Finish(
                                Err(DownloadError::ApiError(ApiFailure::NetworkError(m))),
                            )
                            &&& final(self).phase is Finished
                            &&& keeps_request(*old(self), *final(self))
                            &&& keeps_counts(*old(self), *final(self))
                        },
                        Ok(info) => if first && is_html(info.content_type) {
                            &&& r.action is ReadPage
                            &&& final(self).ukey == info.ukey
                            &&& final(self).phase is ReadingPage
                            &&& keeps_counts(*old(self), *final(self))
                        } else if is_error_status(info.status) {
                            &&& r.action == DownloadAction::Finish(
                                Err(DownloadError::ApiError(ApiFailure::NetworkError(info.error_text))),
                            )
                            &&& final(self).phase is Finished
                            &&& keeps_request(*old(self), *final(self))
                            &&& keeps_counts(*old(self), *final(self))
                        } else {
                            let append = old(self).resume && info.status == 206;
                            &&& r.action == DownloadAction::OpenFile { append }
                            &&& final(self).downloaded == (if append {
                                old(self).start
                            } else {
                                0
                            })
                            &&& final(self).phase is Opening
                            &&& keeps_request(*old(self), *final(self))
                        },
                    }
                },
                (DownloadPhase::ReadingPage, DownloadEvent::PageRead(page)) => {
                    &&& r.report is None
                    &&& final(self).resume == old(self).resume
                    &&& final(self).start == old(self).start
                    &&& final(self).ukey == old(self).ukey
                    &&& keeps_counts(*old(self), *final(self))
                    &&& (final(self).pass == old(self).pass || final(self).phase is ResolvingMalware)
                    &&& match page {
                        Err(m) => {
                            &&& r.action == DownloadAction::Finish(
                                Err(DownloadError::ApiError(ApiFailure::NetworkError(m))),
                            )
                            &&& final(self).phase is Finished
                        },
                        Ok(html) => match normal_html_link(html@) {
                            Some(link) => {
                                &&& r.action matches DownloadAction::Send(req) && is_request(
                                    req,
                                    Method::Get,
                                    link,
                                    old(self).resume,
                                    old(self).start,
                                    None,
                                )
                                &&& final(self).phase == (DownloadPhase::AwaitingResponse {
                                    first: false,
                                })
                            },
                            None => match (old(self).ukey, malware_token_and_pass(html@)) {
                                (Some(ukey), Some((token, pass))) => {
                                    &&& r.action matches DownloadAction::ResolveMalwareLink {
                                        ukey: u,
                                        security_token: t,
                                    } && u@ == ukey@ && t@ == token
                                    &&& final(self).pass@ == pass
                                    &&& final(self).phase is ResolvingMalware
                                },
                                _ => {
                                    &&& r.action == DownloadAction::Finish(
                                        Err(DownloadError::LinkExtractionError),
                                    )
                                    &&& final(self).phase is Finished
                                },
                            },
                        },
                    }
                },
                (DownloadPhase::ResolvingMalware, DownloadEvent::MalwareLink(link)) => {
                    &&& r.report is None
                    &&& keeps_request(*old(self), *final(self))
                    &&& keeps_counts(*old(self), *final(self))
                    &&& match link {
                        Err(e) => {
                            &&& r.action == DownloadAction::Finish(Err(DownloadError::ApiError(e)))
                            &&& final(self).phase is Finished
                        },
                        Ok(url) => {
                            &&& r.action matches DownloadAction::Send(req) && is_request(
                                req,
                                Method::Post,
                                url@,
                                old(self).resume,
                                old(self).start,
                                Some("pass="@ + old(self).pass@),
                            )
                            &&& final(self).phase == (DownloadPhase::AwaitingResponse {
                                first: false,
                            })
                        },
                    }
                },
                (DownloadPhase::Opening, DownloadEvent::FileOpened(ok)) => {
                    &&& r.report is None
                    &&& keeps_request(*old(self), *final(self))
                    &&& keeps_counts(*old(self), *final(self))
                    &&& if ok {
                        &&& r.action is ReadChunk
                        &&& final(self).phase is Streaming
                        &&& final(self).downloaded == old(self).downloaded
                    } else {
                        &&& r.action == DownloadAction::Finish(Err(DownloadError::IoError))
                        &&& final(self).phase is Finished
                    }
                },
                (DownloadPhase::Streaming, DownloadEvent::ChunkRead(read)) => {
                    &&& r.report is None
                    &&& keeps_request(*old(self), *final(self))
                    &&& final(self).downloaded == old(self).downloaded
                    &&& (final(self).chunk == old(self).chunk || read matches Ok(Some(_)))
                    &&& match read {
                        Err(m) => {
                            &&& r.action == DownloadAction::Finish(
                                Err(DownloadError::ApiError(ApiFailure::NetworkError(m))),
                            )
                            &&& final(self).phase is Finished
                        },
                        Ok(None) => {
                            &&& r.action is Flush
                            &&& final(self).phase is Flushing
                        },
                        Ok(Some(n)) => {
                            &&& r.action is WriteChunk
                            &&& final(self).chunk == n
                            &&& final(self).phase is Writing
                        },
                    }
                },
                (DownloadPhase::Writing, DownloadEvent::ChunkWritten(ok)) => {
                    &&& keeps_request(*old(self), *final(self))
                    &&& final(self).chunk == old(self).chunk
                    &&& if ok {
                    &&& r.report == Some(
                        DownloadProgress::Downloading(
                            (old(self).downloaded + old(self).chunk) as u64,
                            old(self).size,
                        ),
                    )
                    &&& r.action is ReadChunk
                    &&& final(self).downloaded == old(self).downloaded + old(self).chunk
                    &&& final(self).phase is Streaming
                } else {
                    &&& r.report is None
                    &&& r.action == DownloadAction::Finish(Err(DownloadError::IoError))
                    &&& final(self).phase is Finished
                    &&& final(self).downloaded == old(self).downloaded
                    }
                },
                (DownloadPhase::Flushing, DownloadEvent::Flushed(ok)) => {
                    &&& keeps_request(*old(self), *final(self))
                    &&& keeps_counts(*old(self), *final(self))
                    &&& if ok {
                    &&& r.report == Some(DownloadProgress::CheckingHash)
                    &&& r.action is VerifyHash
                    &&& final(self).phase is CheckingDownload
                    } else {
                    &&& r.report is None
                    &&& r.action == DownloadAction::Finish(Err(DownloadError::IoError))
                    &&& final(self).phase is Finished
                    }
                },
                (DownloadPhase::CheckingDownload, DownloadEvent::HashChecked(checked)) => {
                    &&& keeps_request(*old(self), *final(self))
                    &&& keeps_counts(*old(self), *final(self))
                    &&& match checked {
                        Ok(()) => {
                            &&& r.report == Some(DownloadProgress::Done)
                            &&& r.action == DownloadAction::Finish(Ok(()))
                            &&& final(self).phase is Finished
                        },
                        Err(e) => {
                            &&& r.report is None
                            &&& r.action is RemoveFile
                            &&& final(self).phase == DownloadPhase::Removing(e)
                        },
                    }
                },
                (DownloadPhase::Removing(e), DownloadEvent::Removed) => {
                    &&& r.report is None
                    &&& keeps_request(*old(self), *final(self))
                    &&& keeps_counts(*old(self), *final(self))
                    &&& r.action == DownloadAction::Finish(Err(e))
                    &&& final(self).phase is Finished
                },
                _ => {
                    &&& r.report is None
                    &&& r.action is Unexpected
                    &&& *final(self) == *old(self)
                },
            },
    {
        let mut phase = DownloadPhase::Finished;
        std::mem::swap(&mut phase, &mut self.phase);
        match (phase, event) {
            (DownloadPhase::Start, DownloadEvent::Begin) => {
                self.phase = DownloadPhase::PreparingDirectory;
                step_of(Some(DownloadProgress::TryResuming), DownloadAction::PrepareDirectory)
            },
            (DownloadPhase::PreparingDirectory, DownloadEvent::DirectoryReady(ok)) => {
                if ok {
                    self.phase = DownloadPhase::Inspecting;
                    step_of(None, DownloadAction::InspectExisting)
                } else {
                    step_of(None, DownloadAction::Finish(Err(DownloadError::IoError)))
                }
            },
            (DownloadPhase::Inspecting, DownloadEvent::Existing(existing)) => {
                let (resume, start) = match existing {
                    Some(len) => {
                        if len == self.size {
                            self.phase = DownloadPhase::CheckingExisting;
                            return step_of(
                                Some(DownloadProgress::CheckingHash),
                                DownloadAction::VerifyHash,
                            );
                        }
                        (len > 0, len)
                    },
                    None => (false, 0u64),
                };
                self.resume = resume;
                self.start = start;
                self.phase = DownloadPhase::AwaitingResponse { first: true };
                let req = make_request(Method::Get, self.link.clone(), resume, start, None);
                step_of(Some(DownloadProgress::GettingLink), DownloadAction::Send(req))
            },
            (DownloadPhase::CheckingExisting, DownloadEvent::HashChecked(checked)) => {
                match checked {
                    Ok(()) => step_of(Some(DownloadProgress::Done), DownloadAction::Finish(Ok(()))),
                    Err(_) => {
                        self.resume = false;
                        self.start = 0;
                        self.phase = DownloadPhase::AwaitingResponse { first: true };
                        let req = make_request(Method::Get, self.link.clone(), false, 0, None);
                        step_of(Some(DownloadProgress::GettingLink), DownloadAction::Send(req))
                    },
                }
            },
            (DownloadPhase::AwaitingResponse { first }, DownloadEvent::Responded(res)) => {
                match res {
                    Err(m) => step_of(
                        None,
                        DownloadAction::Finish(
                            Err(DownloadError::ApiError(ApiFailure::NetworkError(m))),
                        ),
                    ),
                    Ok(info) => {
                        if first && html_content(&info.content_type) {
                            self.ukey = info.ukey;
                            self.phase = DownloadPhase::ReadingPage;
                            step_of(None, DownloadAction::ReadPage)
                        } else {
                            if 400 <= info.status && info.status <= 599 {
                                step_of(
                                    None,
                                    DownloadAction::Finish(
                                        Err(
                                            DownloadError::ApiError(
                                                ApiFailure::NetworkError(info.error_text),
                                            ),
                                        ),
                                    ),
                                )
                            } else {
                                let append = self.resume && info.status == 206;
                                self.downloaded = if append {
                                    self.start
                                } else {
                                    0
                                };
                                self.phase = DownloadPhase::Opening;
                                step_of(None, DownloadAction::OpenFile { append })
                            }
                        }
                    },
                }
            },
            (DownloadPhase::ReadingPage, DownloadEvent::PageRead(page)) => {
                match page {
                    Err(m) => step_of(
                        None,
                        DownloadAction::Finish(
                            Err(DownloadError::ApiError(ApiFailure::NetworkError(m))),
                        ),
                    ),
                    Ok(html) => {
                        match try_extract_link_from_normal_html(&html) {
                            Some(link) => {
                                self.phase = DownloadPhase::AwaitingResponse { first: false };
                                let req = make_request(
                                    Method::Get,
                                    link,
                                    self.resume,
                                    self.start,
                                    None,
                                );
                                step_of(None, DownloadAction::Send(req))
                            },
                            None => {
                                let ukey = match &self.ukey {
                                    Some(u) => u.clone(),
                                    None => {
                                        return step_of(
                                            None,
                                            DownloadAction::Finish(
                                                Err(DownloadError::LinkExtractionError),
                                            ),
                                        );
                                    },
                                };
                                match try_extract_security_token_from_malware_html(&html) {
                                    Some((token, pass)) => {
                                        self.pass = pass;
                                        self.phase = DownloadPhase::ResolvingMalware;
                                        step_of(
                                            None,
                                            DownloadAction::ResolveMalwareLink {
                                                ukey,
                                                security_token: token,
                                            },
                                        )
                                    },
                                    None => step_of(
                                        None,
                                        DownloadAction::Finish(
                                            Err(DownloadError::LinkExtractionError),
                                        ),
                                    ),
                                }
                            },
                        }
                    },
                }
            },
            (DownloadPhase::ResolvingMalware, DownloadEvent::MalwareLink(link)) => {
                match link {
                    Err(e) => step_of(
                        None,
                        DownloadAction::Finish(Err(DownloadError::ApiError(e))),
                    ),
                    Ok(url) => {
                        self.phase = DownloadPhase::AwaitingResponse { first: false };
                        let body = "pass=".to_string().concat(self.pass.as_str());
                        let req = make_request(
                            Method::Post,
                            url,
                            self.resume,
                            self.start,
                            Some(body),
                        );
                        step_of(None, DownloadAction::Send(req))
                    },
                }
            },
            (DownloadPhase::Opening, DownloadEvent::FileOpened(ok)) => {
                if ok {
                    self.phase = DownloadPhase::Streaming;
                    step_of(None, DownloadAction::ReadChunk)
                } else {
                    step_of(None, DownloadAction::Finish(Err(DownloadError::IoError)))
                }
            },
            (DownloadPhase::Streaming, DownloadEvent::ChunkRead(read)) => {
                match read {
                    Err(m) => step_of(
                        None,
                        DownloadAction::Finish(
                            Err(DownloadError::ApiError(ApiFailure::NetworkError(m))),
                        ),
                    ),
                    Ok(None) => {
                        self.phase = DownloadPhase::Flushing;
                        step_of(None, DownloadAction::Flush)
                    },
                    Ok(Some(n)) => {
                        self.chunk = n;
                        self.phase = DownloadPhase::Writing;
                        step_of(None, DownloadAction::WriteChunk)
                    },
                }
            },
            (DownloadPhase::Writing, DownloadEvent::ChunkWritten(ok)) => {
                if ok {
                    self.downloaded = self.downloaded + self.chunk;
                    self.phase = DownloadPhase::Streaming;
                    step_of(
                        Some(DownloadProgress::Downloading(self.downloaded, self.size)),
                        DownloadAction::ReadChunk,
                    )
                } else {
                    step_of(None, DownloadAction::Finish(Err(DownloadError::IoError)))
                }
            },
            (DownloadPhase::Flushing, DownloadEvent::Flushed(ok)) => {
                if ok {
                    self.phase = DownloadPhase::CheckingDownload;
                    step_of(Some(DownloadProgress::CheckingHash), DownloadAction::VerifyHash)
                } else {
                    step_of(None, DownloadAction::Finish(Err(DownloadError::IoError)))
                }
            },
            (DownloadPhase::CheckingDownload, DownloadEvent::HashChecked(checked)) => {
                match checked {
                    Ok(()) => step_of(Some(DownloadProgress::Done), DownloadAction::Finish(Ok(()))),
                    Err(e) => {
                        self.phase = DownloadPhase::Removing(e);
                        step_of(None, DownloadAction::RemoveFile)
                    },
                }
            },
            (DownloadPhase::Removing(e), DownloadEvent::Removed) => {
                step_of(None, DownloadAction::Finish(Err(e)))
            },
            (other, _) => {
                self.phase = other;
                step_of(None, DownloadAction::Unexpected)
            },
        }
    }
}

} // verus!
