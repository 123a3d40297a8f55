use vstd::prelude::*;

verus! {

/// A phase of a download, as reported to a progress callback.
#[derive(Debug, Clone, Copy, PartialEq, Eq, Structural)]
pub enum DownloadProgress {
    Done,
    GettingLink,
    TryResuming,
    CheckingHash,
    /// Bytes written so far, and the expected file size.
    Downloading(u64, u64),
}

} // verus!
