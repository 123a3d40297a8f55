use mediafire_downloader::types::{DownloadJob, JobPath, JobQueue};
use std::cmp::Ordering;
use std::path::PathBuf;

fn job(name: &str, size: u64, reverse: bool) -> DownloadJob {
    let path = JobPath::new(PathBuf::from("out")).join(&name.to_string());
    DownloadJob::new(
        name.to_string(),
        path,
        size,
        format!("https://example.com/{name}"),
        "0".repeat(32),
        reverse,
        md_api::Api::new(1).unwrap(),
        reqwest::Client::new(),
    )
}

#[test]
fn job_fields_as_given() {
    let j = job("a.bin", 10, true);
    assert_eq!(j.filename, "a.bin");
    assert_eq!(j.size, 10);
    assert_eq!(j.download_link, "https://example.com/a.bin");
    assert!(j.reverse);
    assert_eq!(j.path.to_path_buf(), PathBuf::from("out").join("a.bin"));
}

#[test]
fn job_path_joins_in_order() {
    let p = JobPath::new(PathBuf::from("base"))
        .join(&"folder".to_string())
        .join(&"sub".to_string())
        .join(&"f.txt".to_string());
    assert_eq!(p.parts, vec!["folder", "sub", "f.txt"]);
    assert_eq!(p.to_path_buf(), PathBuf::from("base/folder/sub/f.txt"));
}

#[test]
fn cmp_descending_by_default() {
    let small = job("s", 1, false);
    let big = job("b", 9, false);
    assert_eq!(small.cmp(&big), Ordering::Greater);
    assert_eq!(big.cmp(&small), Ordering::Less);
    assert_eq!(small.partial_cmp(&small), Some(Ordering::Equal));
}

#[test]
fn cmp_ascending_when_reversed() {
    let small = job("s", 1, true);
    let big = job("b", 9, true);
    assert_eq!(small.cmp(&big), Ordering::Less);
    assert_eq!(big.partial_cmp(&small), Some(Ordering::Greater));
}

#[test]
fn eq_compares_name_size_link_path() {
    let a = job("x", 5, false);
    let b = job("x", 5, true);
    let c = job("y", 5, false);
    assert!(a.eq(&a));
    assert!(a.eq(&b));
    assert!(!a.eq(&c));
}

#[test]
fn queue_reverse_pops_smallest_first() {
    let mut q = JobQueue::new();
    for (n, s) in [("a", 5u64), ("b", 1), ("c", 9), ("d", 3)] {
        q.push(job(n, s, true));
    }
    assert_eq!(q.len(), 4);
    let mut sizes = Vec::new();
    while let Some(j) = q.pop() {
        sizes.push(j.size);
    }
    assert_eq!(sizes, vec![1, 3, 5, 9]);
    assert!(q.is_empty());
    assert!(q.pop().is_none());
}

#[test]
fn queue_default_pops_largest_first() {
    let mut q = JobQueue::new();
    let sizes = [5u64, 1, 9, 3, 9, 0];
    for (i, s) in sizes.iter().enumerate() {
        q.push(job(&i.to_string(), *s, false));
    }
    let mut out = Vec::new();
    while let Some(j) = q.pop() {
        out.push(j.size);
    }
    assert_eq!(out, vec![9, 9, 5, 3, 1, 0]);
}

#[test]
fn queue_peek_matches_pop() {
    let mut q = JobQueue::new();
    assert!(q.peek().is_none());
    q.push(job("a", 2, true));
    q.push(job("b", 7, true));
    assert_eq!(q.peek().unwrap().size, 2);
    assert_eq!(q.pop().unwrap().filename, "a");
    q.push(job("c", 4, false));
    q.push(job("d", 8, false));
    assert_eq!(q.peek().unwrap().size, 8);
}

#[test]
fn eq_depends_on_path() {
    let mk = |dir: &str| {
        DownloadJob::new(
            "f".to_string(),
            JobPath::new(PathBuf::from("out")).join(&dir.to_string()).join(&"f".to_string()),
            1,
            "l".to_string(),
            "h".to_string(),
            false,
            md_api::Api::new(1).unwrap(),
            reqwest::Client::new(),
        )
    };
    assert!(!mk("a").eq(&mk("b")));
    assert!(mk("a").eq(&mk("a")));
    // Paths that join to the same location compare equal.
    let split = DownloadJob::new(
        "f".to_string(),
        JobPath::new(PathBuf::from("out")).join(&"a/f".to_string()),
        1,
        "l".to_string(),
        "h".to_string(),
        false,
        md_api::Api::new(1).unwrap(),
        reqwest::Client::new(),
    );
    assert!(mk("a").eq(&split));
}

#[test]
fn job_clone_and_debug() {
    let j = job("c.txt", 4, false);
    let k = j.clone();
    assert!(j.eq(&k));
    assert!(format!("{k:?}").contains("c.txt"));
}
