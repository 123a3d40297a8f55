pub mod download_error;
pub mod download_job;
pub mod download_progress;

pub use download_error::{ApiFailure, DownloadError};
pub use download_job::{DownloadJob, JobPath};
pub use download_progress::DownloadProgress;
pub mod job_queue;
pub use job_queue::JobQueue;
