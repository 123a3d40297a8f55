//! A single file to download, where it goes, and how jobs are prioritised.

use vstd::prelude::*;
use md_api::Api;
use reqwest::Client;
use std::cmp::Ordering;
use std::path::PathBuf;
use crate::outside::{path_eq, path_join, path_joined, paths_equal};

verus! {

/// Names as text.
pub open spec fn names_of(parts: Seq<String>) -> Seq<Seq<char>> {
    parts.map_values(|p: String| p@)
}

/// Where a file is written: a base directory with names adjoined to it, one
/// after another (the enclosing folders, then the file's own name).
#[derive(Debug, Clone)]
pub struct JobPath {
    pub base: PathBuf,
    pub parts: Vec<String>,
}

impl JobPath {
    /// The names adjoined to the base, in order.
    pub open spec fn names(&self) -> Seq<Seq<char>> {
        names_of(self.parts@)
    }

    /// The base directory itself.
    pub fn new(base: PathBuf) -> (r: JobPath)
        ensures
            r.base == base,
            r.names() == Seq::<Seq<char>>::empty(),
    {
        let r = JobPath { base, parts: Vec::new() };
        assert(r.names() =~= Seq::<Seq<char>>::empty());
        r
    }

    /// This path with `name` adjoined.
    pub fn join(&self, name: &String) -> (r: JobPath)
        ensures
            r.base == self.base,
            r.names() == self.names().push(name@),
    {
        let mut parts: Vec<String> = Vec::new();
        let mut i: usize = 0;
        while i < self.parts.len()
            invariant
                i <= self.parts.len(),
                parts@ == self.parts@.take(i as int),
            decreases self.parts.len() - i,
        {
            parts.push(self.parts[i].clone());
            i = i + 1;
            assert(parts@ =~= self.parts@.take(i as int));
        }
        assert(self.parts@.take(self.parts.len() as int) =~= self.parts@);
        parts.push(name.clone());
        let r = JobPath { base: self.base.clone(), parts };
        assert(r.parts@ == self.parts@.push(*name));
        assert(r.names() =~= self.names().push(name@));
        r
    }

    /// The path as a `PathBuf`: the base with each name joined on in turn
    /// (`Path::join`).
    pub fn to_path_buf(&self) -> (r: PathBuf)
        ensures
            r == joined_all(self.base, self.names()),
    {
        let mut p = self.base.clone();
        let mut i: usize = 0;
        while i < self.parts.len()
            invariant
                i <= self.parts.len(),
                p == joined_all(self.base, self.names().take(i as int)),
            decreases self.parts.len() - i,
        {
            let ghost before = self.names().take(i as int);
            p = path_join(&p, &self.parts[i]);
            i = i + 1;
            proof {
                let now = self.names().take(i as int);
                assert(now.drop_last() =~= before);
                assert(now.last() == self.parts@[i - 1]@);
            }
        }
        assert(self.names().take(self.parts.len() as int) =~= self.names());
        p
    }
}

/// `base` with each of `names` joined on in turn, as `Path::join` does.
pub open spec fn joined_all(base: PathBuf, names: Seq<Seq<char>>) -> PathBuf
    decreases names.len(),
{
    if names.len() == 0 {
        base
    } else {
        path_joined(joined_all(base, names.drop_last()), names.last())
    }
}

/// A single downloadable file and all that is needed to download, resume,
/// verify and order it.
#[derive(Debug, Clone)]
pub struct DownloadJob {
    pub filename: String,
    pub path: JobPath,
    pub size: u64,
    pub download_link: String,
    pub hash: String,
    pub reverse: bool,
    pub api_client: Api,
    pub download_client: Client,
}

/// The order of two jobs: by size, ascending when `a` sorts in reverse,
/// descending otherwise.
pub open spec fn size_order(a: &DownloadJob, b: &DownloadJob) -> Ordering {
    let (x, y) = if a.reverse {
        (a.size, b.size)
    } else {
        (b.size, a.size)
    };
    if x < y {
        Ordering::Less
    } else if x == y {
        Ordering::Equal
    } else {
        Ordering::Greater
    }
}

impl DownloadJob {
    /// The job's priority: jobs of higher rank are taken first from a queue.
    /// Jobs rank by size (largest files first), reverse-sorting jobs by
    /// negated size (smallest files first).
    pub open spec fn rank(&self) -> int {
        if self.reverse {
            -(self.size as int)
        } else {
            self.size as int
        }
    }

    /// Creates a new `DownloadJob`.
    ///
    /// `hash` is the expected checksum (32 hex characters for MD5, 64 for
    /// SHA-256); `reverse` selects ascending order by size, otherwise
    /// descending.
    pub fn new(
        filename: String,
        path: JobPath,
        size: u64,
        download_link: String,
        hash: String,
        reverse: bool,
        api_client: Api,
        download_client: Client,
    ) -> (r: Self)
        ensures
            r.filename == filename,
            r.path == path,
            r.size == size,
            r.download_link == download_link,
            r.hash == hash,
            r.reverse == reverse,
            r.api_client == api_client,
            r.download_client == download_client,
    {
        DownloadJob {
            filename,
            path,
            size,
            download_link,
            hash,
            reverse,
            api_client,
            download_client,
        }
    }

    /// Whether `self` is taken from a queue before `other`: its rank is higher.
    pub fn outranks(&self, other: &DownloadJob) -> (r: bool)
        ensures
            r == (self.rank() > other.rank()),
    {
        if self.reverse {
            if other.reverse {
                other.size > self.size
            } else {
                false
            }
        } else {
            if other.reverse {
                self.size > 0 || other.size > 0
            } else {
                self.size > other.size
            }
        }
    }

    /// Compares two jobs by size: ascending when `self` sorts in reverse,
    /// descending otherwise.
    pub fn cmp(&self, other: &DownloadJob) -> (r: Ordering)
        ensures
            r == size_order(self, other),
    {
        let (x, y) = if self.reverse {
            (self.size, other.size)
        } else {
            (other.size, self.size)
        };
        if x < y {
            Ordering::Less
        } else if x == y {
            Ordering::Equal
        } else {
            Ordering::Greater
        }
    }

    /// The same order as [`DownloadJob::cmp`], which is total.
    pub fn partial_cmp(&self, other: &DownloadJob) -> (r: Option<Ordering>)
        ensures
            r == Some(size_order(self, other)),
    {
        Some(self.cmp(other))
    }

    /// Whether two jobs are the same file: equal names, sizes and links, and
    /// paths that compare equal as `PathBuf`s.
    pub fn eq(&self, other: &DownloadJob) -> (r: bool)
        ensures
            r == (self.filename@ == other.filename@ && self.size == other.size
                && self.download_link@ == other.download_link@ && paths_equal(
                joined_all(self.path.base, self.path.names()),
                joined_all(other.path.base, other.path.names()),
            )),
            (self.filename@ == other.filename@ && self.size == other.size && self.download_link@
                == other.download_link@ && self.path.base == other.path.base
                && self.path.names() == other.path.names()) ==> r,
    {
        if self.filename != other.filename || self.size != other.size || self.download_link
            != other.download_link {
            return false;
        }
        path_eq(&self.path.to_path_buf(), &other.path.to_path_buf())
    }
}

/// Among jobs that sort the same way, `cmp` is a total order by size:
/// ascending when they sort in reverse, descending otherwise.
pub proof fn law_size_order(a: &DownloadJob, b: &DownloadJob, c: &DownloadJob)
    requires
        a.reverse == b.reverse,
        b.reverse == c.reverse,
    ensures
        size_order(a, b) == Ordering::Equal <==> a.size == b.size,
        size_order(a, b) == Ordering::Less <==> size_order(b, a) == Ordering::Greater,
        size_order(a, b) != Ordering::Greater && size_order(b, c) != Ordering::Greater
            ==> size_order(a, c) != Ordering::Greater,
        a.reverse ==> (size_order(a, b) == Ordering::Less <==> a.size < b.size),
        !a.reverse ==> (size_order(a, b) == Ordering::Less <==> a.size > b.size),
{
}

} // verus!
