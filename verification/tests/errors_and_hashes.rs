use mediafire_downloader::downloader::MediafireDownloader;
use mediafire_downloader::hashing::Hasher;
use mediafire_downloader::types::{ApiFailure, DownloadError, DownloadProgress};

#[test]
fn error_messages() {
    assert_eq!(DownloadError::IoError.message(), "IoError");
    assert_eq!(DownloadError::UnknownHash.message(), "UnknownHash");
    assert_eq!(DownloadError::HashMismatch.message(), "HashMismatch");
    assert_eq!(DownloadError::ClientInitError.message(), "ClientInitError");
    assert_eq!(DownloadError::LinkExtractionError.message(), "LinkExtractionError");
    assert_eq!(DownloadError::InvalidProxy("p://x".to_string()).message(), "InvalidProxy: p://x");
    assert_eq!(
        DownloadError::ApiError(ApiFailure::NetworkError("timeout".to_string())).message(),
        "ApiError: NetworkError: timeout"
    );
    assert_eq!(DownloadError::ApiError(ApiFailure::TooManyRetries).message(), "ApiError: TooManyRetries");
    assert_eq!(ApiFailure::JsonError("bad".to_string()).message(), "JsonError: bad");
    assert_eq!(ApiFailure::InvalidUrl.message(), "InvalidUrl");
}

#[test]
fn progress_values_compare() {
    assert_eq!(DownloadProgress::Downloading(1, 2), DownloadProgress::Downloading(1, 2));
    assert_ne!(DownloadProgress::Done, DownloadProgress::CheckingHash);
}

fn digest_of(expected: &str, parts: &[&[u8]]) -> Result<String, DownloadError> {
    let mut h = Hasher::for_expected(&expected.to_string())?;
    for p in parts {
        h.update(p);
    }
    Ok(h.finish_hex())
}

#[test]
fn md5_for_32_character_hashes() {
    let hex = digest_of(&"0".repeat(32), &[b"ab", b"c"]).unwrap();
    assert_eq!(hex, "900150983cd24fb0d6963f7d28e17f72");
}

#[test]
fn sha256_for_64_character_hashes() {
    let hex = digest_of(&"0".repeat(64), &[b"a", b"", b"bc"]).unwrap();
    assert_eq!(hex, "ba7816bf8f01cfea414140de5dae2223b00361a396177a9cb410ff61f20015ad");
}

#[test]
fn other_lengths_are_unknown() {
    assert!(matches!(Hasher::for_expected(&"abc".to_string()), Err(DownloadError::UnknownHash)));
    assert!(matches!(Hasher::for_expected(&String::new()), Err(DownloadError::UnknownHash)));
}

#[test]
fn check_accepts_exact_digest_only() {
    let good = "900150983cd24fb0d6963f7d28e17f72".to_string();
    let mut h = Hasher::for_expected(&good).unwrap();
    h.update(b"abc");
    assert!(h.check(&good).is_ok());
    let upper = good.to_uppercase();
    let mut h = Hasher::for_expected(&upper).unwrap();
    h.update(b"abc");
    assert!(matches!(h.check(&upper), Err(DownloadError::HashMismatch)));
}

#[test]
fn downloader_defaults_and_order() {
    let d = MediafireDownloader::new(2).unwrap();
    assert!(!d.reverse_downloads);
    let d = d.reverse_downloads(true);
    assert!(d.reverse_downloads);
}

#[test]
fn proxies_none_keeps_downloader() {
    let d = MediafireDownloader::new(2).unwrap().reverse_downloads(true);
    let d = d.set_proxies(None, true).unwrap();
    assert!(d.reverse_downloads);
}

#[test]
fn invalid_proxy_reported_first() {
    let d = MediafireDownloader::new(2).unwrap();
    let proxies = vec!["http://127.0.0.1:8080".to_string(), "not a url".to_string(), "::".to_string()];
    match d.set_proxies(Some(proxies), true) {
        Err(DownloadError::InvalidProxy(p)) => assert_eq!(p, "not a url"),
        Err(e) => panic!("unexpected {}", e.message()),
        Ok(_) => panic!("unexpected success"),
    }
}

#[test]
fn invalid_proxy_for_api_only() {
    let d = MediafireDownloader::new(2).unwrap();
    let r = d.set_proxies(Some(vec!["not a url".to_string()]), false);
    assert!(matches!(r, Err(DownloadError::ApiError(ApiFailure::InvalidProxies))));
}

#[test]
fn valid_proxies_accepted() {
    let d = MediafireDownloader::new(2).unwrap().reverse_downloads(true);
    let d = d.set_proxies(Some(vec!["http://127.0.0.1:8080".to_string()]), true).unwrap();
    assert!(d.reverse_downloads);
}

#[test]
fn downloader_from_client_outcomes() {
    let bad_client = || reqwest::Proxy::all("not a url").map(|_| reqwest::Client::new());
    assert!(bad_client().is_err());
    let r = MediafireDownloader::from_clients(Err(ApiFailure::ClientInitError), Ok(reqwest::Client::new()));
    assert!(matches!(r, Err(DownloadError::ApiError(ApiFailure::ClientInitError))));
    let r = MediafireDownloader::from_clients(Err(ApiFailure::InvalidProxies), bad_client());
    assert!(matches!(r, Err(DownloadError::ApiError(ApiFailure::InvalidProxies))));
    let r = MediafireDownloader::from_clients(Ok(md_api::Api::new(1).unwrap()), bad_client());
    assert!(matches!(r, Err(DownloadError::ClientInitError)));
    let d = MediafireDownloader::from_clients(Ok(md_api::Api::new(1).unwrap()), Ok(reqwest::Client::new())).unwrap();
    assert!(!d.reverse_downloads);
}

#[test]
fn downloader_from_proxied_client_outcomes() {
    let bad_client = || reqwest::Proxy::all("not a url").map(|_| reqwest::Client::new());
    let r = MediafireDownloader::from_proxied_clients(bad_client(), Err(ApiFailure::InvalidProxies), true);
    assert!(matches!(r, Err(DownloadError::ClientInitError)));
    let r = MediafireDownloader::from_proxied_clients(bad_client(), Ok(md_api::Api::new(1).unwrap()), true);
    assert!(matches!(r, Err(DownloadError::ClientInitError)));
    let r = MediafireDownloader::from_proxied_clients(Ok(reqwest::Client::new()), Err(ApiFailure::InvalidProxies), false);
    assert!(matches!(r, Err(DownloadError::ApiError(ApiFailure::InvalidProxies))));
    let d = MediafireDownloader::from_proxied_clients(Ok(reqwest::Client::new()), Ok(md_api::Api::new(1).unwrap()), true)
        .unwrap();
    assert!(d.reverse_downloads);
}
