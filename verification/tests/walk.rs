use mediafire_downloader::downloader::MediafireDownloader;
use mediafire_downloader::types::{ApiFailure, DownloadError};
use mediafire_downloader::walk::{FileEntry, FolderContent, ItemInfo, ItemKey, JobWalk, WalkRequest};
use std::path::PathBuf;

fn entry(name: &str, size: u64) -> FileEntry {
    FileEntry {
        filename: name.to_string(),
        size,
        normal_download: format!("https://www.mediafire.com/file/{name}"),
        hash: "h".to_string(),
    }
}

fn walk(keys: Vec<ItemKey>, reverse: bool) -> JobWalk {
    JobWalk::new(keys, PathBuf::from("dl"), reverse, md_api::Api::new(1).unwrap(), reqwest::Client::new())
}

fn key_text(k: &ItemKey) -> (bool, String) {
    match k {
        ItemKey::File(s) => (false, s.clone()),
        ItemKey::Folder(s) => (true, s.clone()),
    }
}

#[test]
fn single_file_key() {
    let mut w = walk(vec![ItemKey::File("fffffffffffffff".to_string())], false);
    match w.next_request() {
        WalkRequest::Info(k) => assert_eq!(key_text(&k), (false, "fffffffffffffff".to_string())),
        _ => panic!("expected an info request"),
    }
    assert!(w.on_info(Ok(ItemInfo::File(entry("a.txt", 3)))).is_ok());
    assert!(matches!(w.next_request(), WalkRequest::Finished));
    let mut q = w.into_queue();
    assert_eq!(q.len(), 1);
    let j = q.pop().unwrap();
    assert_eq!(j.filename, "a.txt");
    assert_eq!(j.path.to_path_buf(), PathBuf::from("dl/a.txt"));
}

#[test]
fn keys_resolved_in_order() {
    let mut w = walk(
        vec![ItemKey::File("first".to_string()), ItemKey::File("second".to_string())],
        false,
    );
    let mut seen = Vec::new();
    loop {
        match w.next_request() {
            WalkRequest::Info(k) => {
                seen.push(key_text(&k).1);
                w.on_info(Ok(ItemInfo::File(entry(&key_text(&k).1, 1)))).unwrap();
            }
            WalkRequest::Finished => break,
            WalkRequest::Content { .. } => panic!("no folder here"),
        }
    }
    assert_eq!(seen, vec!["first", "second"]);
}

#[test]
fn folder_with_files_subfolders_and_chunks() {
    // The default order: the largest file first.
    let mut w = walk(vec![ItemKey::Folder("root".to_string())], false);
    // Info on the root folder.
    assert!(matches!(w.next_request(), WalkRequest::Info(_)));
    w.on_info(Ok(ItemInfo::Folder("Top".to_string()))).unwrap();
    match w.next_request() {
        WalkRequest::Content { key, chunk, folder_name } => {
            assert_eq!(key_text(&key), (true, "root".to_string()));
            assert_eq!(chunk, 1);
            assert_eq!(folder_name, "Top");
        }
        _ => panic!("expected a content request"),
    }
    assert_eq!(w.current_chunk(), Some(1));
    w.on_content(Ok(FolderContent {
        files: Some(vec![entry("one", 10), entry("two", 20)]),
        folders: Some(vec!["subkey".to_string()]),
        more_chunks: "yes".to_string(),
    }))
    .unwrap();
    // The folder's next chunk is taken first (pushed last).
    match w.next_request() {
        WalkRequest::Info(k) => assert_eq!(key_text(&k), (true, "root".to_string())),
        _ => panic!(),
    }
    w.on_info(Ok(ItemInfo::Folder("Top".to_string()))).unwrap();
    match w.next_request() {
        WalkRequest::Content { chunk, .. } => assert_eq!(chunk, 2),
        _ => panic!(),
    }
    w.on_content(Ok(FolderContent { files: Some(vec![entry("three", 30)]), folders: None, more_chunks: "no".to_string() }))
        .unwrap();
    // Then the subfolder.
    match w.next_request() {
        WalkRequest::Info(k) => assert_eq!(key_text(&k), (true, "subkey".to_string())),
        _ => panic!(),
    }
    w.on_info(Ok(ItemInfo::Folder("Sub".to_string()))).unwrap();
    assert!(matches!(w.next_request(), WalkRequest::Content { .. }));
    w.on_content(Ok(FolderContent { files: Some(vec![entry("deep", 5)]), folders: None, more_chunks: "no".to_string() }))
        .unwrap();
    assert!(matches!(w.next_request(), WalkRequest::Finished));
    let mut q = w.into_queue();
    assert_eq!(q.len(), 4);
    let mut got = Vec::new();
    while let Some(j) = q.pop() {
        got.push((j.size, j.path.to_path_buf()));
    }
    assert_eq!(
        got,
        vec![
            (30, PathBuf::from("dl/Top/three")),
            (20, PathBuf::from("dl/Top/two")),
            (10, PathBuf::from("dl/Top/one")),
            (5, PathBuf::from("dl/Top/Sub/deep")),
        ]
    );
}

#[test]
fn api_failure_fails_walk() {
    let mut w = walk(vec![ItemKey::File("k".to_string())], false);
    w.next_request();
    match w.on_info(Err(ApiFailure::InvalidKey)) {
        Err(DownloadError::ApiError(ApiFailure::InvalidKey)) => {}
        other => panic!("unexpected {other:?}"),
    }
}

#[test]
fn content_failure_fails_walk() {
    let mut w = walk(vec![ItemKey::Folder("k".to_string())], false);
    w.next_request();
    w.on_info(Ok(ItemInfo::Folder("F".to_string()))).unwrap();
    w.next_request();
    assert!(matches!(
        w.on_content(Err(ApiFailure::NetworkError("down".to_string()))),
        Err(DownloadError::ApiError(ApiFailure::NetworkError(m))) if m == "down"
    ));
}

#[test]
fn unexpected_reply_is_ignored() {
    let mut w = walk(vec![ItemKey::File("k".to_string())], false);
    assert!(w.on_info(Ok(ItemInfo::File(entry("x", 1)))).is_ok());
    assert!(w.on_content(Ok(FolderContent { files: None, folders: None, more_chunks: "yes".to_string() })).is_ok());
    assert!(matches!(w.next_request(), WalkRequest::Info(_)));
    assert_eq!(w.queue.len(), 0);
}

#[test]
fn downloader_walk_from_urls() {
    let d = MediafireDownloader::new(3).unwrap().reverse_downloads(true);
    let urls = vec![
        "https://www.mediafire.com/folder/akjcex4b8dgui".to_string(),
        "https://www.mediafire.com/file/7f8x0azhs3pb1wm,fauj29155dj6ol6".to_string(),
        "https://example.com/nothing".to_string(),
    ];
    let mut w = d.job_walk(&urls, PathBuf::from(".")).unwrap();
    assert!(w.reverse);
    let mut keys = Vec::new();
    while let WalkRequest::Info(k) = w.next_request() {
        keys.push(key_text(&k));
        w.on_info(Ok(ItemInfo::File(entry("f", 1)))).unwrap();
    }
    assert_eq!(
        keys,
        vec![
            (true, "akjcex4b8dgui".to_string()),
            (false, "7f8x0azhs3pb1wm".to_string()),
            (false, "fauj29155dj6ol6".to_string()),
        ]
    );
}
