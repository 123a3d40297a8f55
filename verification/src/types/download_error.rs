use vstd::prelude::*;

verus! {

broadcast use vstd::string::group_string_axioms;

/// A failure reported by the MediaFire API client.
#[derive(Debug)]
pub enum ApiFailure {
    InvalidUrl,
    InvalidKey,
    EmptyResponse,
    InvalidProxies,
    TooManyRetries,
    ClientInitError,
    JsonError(String),
    NetworkError(String),
}

/// The text that describes an API failure.
pub open spec fn api_error_text(e: ApiFailure) -> Seq<char> {
    match e {
        ApiFailure::InvalidUrl => "InvalidUrl"@,
        ApiFailure::InvalidKey => "InvalidKey"@,
        ApiFailure::EmptyResponse => "EmptyResponse"@,
        ApiFailure::TooManyRetries => "TooManyRetries"@,
        ApiFailure::InvalidProxies => "InvalidProxies"@,
        ApiFailure::ClientInitError => "ClientInitError"@,
        ApiFailure::JsonError(m) => "JsonError: "@ + m@,
        ApiFailure::NetworkError(m) => "NetworkError: "@ + m@,
    }
}

impl ApiFailure {
    /// The text that describes this failure.
    pub fn message(&self) -> (r: String)
        ensures
            r@ == api_error_text(*self),
    {
        match self {
            ApiFailure::InvalidUrl => "InvalidUrl".to_string(),
            ApiFailure::InvalidKey => "InvalidKey".to_string(),
            ApiFailure::EmptyResponse => "EmptyResponse".to_string(),
            ApiFailure::TooManyRetries => "TooManyRetries".to_string(),
            ApiFailure::InvalidProxies => "InvalidProxies".to_string(),
            ApiFailure::ClientInitError => "ClientInitError".to_string(),
            ApiFailure::JsonError(m) => "JsonError: ".to_string().concat(m.as_str()),
            ApiFailure::NetworkError(m) => "NetworkError: ".to_string().concat(m.as_str()),
        }
    }
}

/// The ways a download can fail.
#[derive(Debug)]
pub enum DownloadError {
    IoError,
    UnknownHash,
    HashMismatch,
    ClientInitError,
    LinkExtractionError,
    ApiError(ApiFailure),
    InvalidProxy(String),
}

/// The text that describes a download failure.
pub open spec fn download_error_text(e: DownloadError) -> Seq<char> {
    match e {
        DownloadError::ApiError(a) => "ApiError: "@ + api_error_text(a),
        DownloadError::IoError => "IoError"@,
        DownloadError::LinkExtractionError => "LinkExtractionError"@,
        DownloadError::HashMismatch => "HashMismatch"@,
        DownloadError::UnknownHash => "UnknownHash"@,
        DownloadError::InvalidProxy(p) => "InvalidProxy: "@ + p@,
        DownloadError::ClientInitError => "ClientInitError"@,
    }
}

impl DownloadError {
    /// The text that describes this failure.
    pub fn message(&self) -> (r: String)
        ensures
            r@ == download_error_text(*self),
    {
        match self {
            DownloadError::ApiError(e) => "ApiError: ".to_string().concat(e.message().as_str()),
            DownloadError::IoError => "IoError".to_string(),
            DownloadError::LinkExtractionError => "LinkExtractionError".to_string(),
            DownloadError::HashMismatch => "HashMismatch".to_string(),
            DownloadError::UnknownHash => "UnknownHash".to_string(),
            DownloadError::InvalidProxy(p) => "InvalidProxy: ".to_string().concat(p.as_str()),
            DownloadError::ClientInitError => "ClientInitError".to_string(),
        }
    }
}

} // verus!
