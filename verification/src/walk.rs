//! Resolving MediaFire files and folders into download jobs.
//!
//! The traversal is a state machine: [`JobWalk::next_request`] says which API
//! request to make next, and [`JobWalk::on_info`] / [`JobWalk::on_content`]
//! take the replies. Folders are explored depth first from a stack, a folder's
//! files go under a directory named after it, and paginated folder contents
//! are fetched chunk by chunk.

use vstd::prelude::*;
use vstd::multiset::Multiset;
use md_api::Api;
use reqwest::Client;
use std::path::PathBuf;
use crate::types::download_error::{ApiFailure, DownloadError};
use crate::types::download_job::{DownloadJob, JobPath, names_of};
use crate::types::job_queue::{JobQueue, law_drain_in_rank_order};
use crate::outside::{api_proxies, api_retries, client_headers, client_proxies};

verus! {

broadcast use vstd::string::group_string_axioms;

/// A MediaFire file or folder key.
pub enum ItemKey {
    File(String),
    Folder(String),
}

/// The text of a key, and whether it names a file or a folder.
pub enum KeyView {
    File(Seq<char>),
    Folder(Seq<char>),
}

impl View for ItemKey {
    type V = KeyView;

    open spec fn view(&self) -> KeyView {
        match self {
            ItemKey::File(k) => KeyView::File(k@),
            ItemKey::Folder(k) => KeyView::Folder(k@),
        }
    }
}

impl ItemKey {
    /// A copy of this key.
    pub fn duplicate(&self) -> (r: ItemKey)
        ensures
            r@ == self@,
    {
        match self {
            ItemKey::File(k) => ItemKey::File(k.clone()),
            ItemKey::Folder(k) => ItemKey::Folder(k.clone()),
        }
    }
}

/// What the API reports of a file.
pub struct FileEntry {
    pub filename: String,
    pub size: u64,
    /// The file's normal download link.
    pub normal_download: String,
    pub hash: String,
}

impl FileEntry {
    /// A copy of this entry.
    pub fn duplicate(&self) -> (r: FileEntry)
        ensures
            r.filename@ == self.filename@,
            r.size == self.size,
            r.normal_download@ == self.normal_download@,
            r.hash@ == self.hash@,
    {
        FileEntry {
            filename: self.filename.clone(),
            size: self.size,
            normal_download: self.normal_download.clone(),
            hash: self.hash.clone(),
        }
    }
}

/// What the API reports of a key: a file, or a folder with its name.
pub enum ItemInfo {
    File(FileEntry),
    Folder(String),
}

/// One chunk of a folder's contents.
pub struct FolderContent {
    pub files: Option<Vec<FileEntry>>,
    /// The keys of the subfolders.
    pub folders: Option<Vec<String>>,
    /// `"yes"` when further chunks follow.
    pub more_chunks: String,
}

/// A key still to be resolved, the names of the directories its files go
/// under, and the chunk of its contents to fetch.
pub struct Pending {
    pub key: ItemKey,
    pub parts: Vec<String>,
    pub chunk: u64,
}

/// A pending key as values.
pub struct PendingView {
    pub key: KeyView,
    pub dir: Seq<Seq<char>>,
    pub chunk: u64,
}

impl View for Pending {
    type V = PendingView;

    open spec fn view(&self) -> PendingView {
        PendingView { key: self.key@, dir: names_of(self.parts@), chunk: self.chunk }
    }
}

/// Where the traversal stands.
pub enum WalkPhase {
    /// Ready to take the next pending key.
    Idle,
    /// Waiting for the information on a key.
    AwaitInfo(Pending),
    /// Waiting for a chunk of the contents of a folder with the given name.
    AwaitContent(Pending, String),
}

/// The request the traversal needs answered next.
pub enum WalkRequest {
    /// Fetch the information on this key.
    Info(ItemKey),
    /// Report the folder name as progress, then fetch this chunk of the
    /// folder's files and subfolders.
    Content { key: ItemKey, chunk: u64, folder_name: String },
    /// Every key is resolved.
    Finished,
}

/// `j` uses clients configured as `api` and `client`: the same retry count
/// and proxies, the same default headers and proxies.
pub open spec fn uses_clients(j: DownloadJob, api: Api, client: Client) -> bool {
    &&& api_retries(j.api_client) == api_retries(api)
    &&& api_proxies(j.api_client) == api_proxies(api)
    &&& client_headers(j.download_client) == client_headers(client)
    &&& client_proxies(j.download_client) == client_proxies(client)
}

/// `j` is the job for the file `f` found under the directories `dir` below
/// `base`, sorted as `reverse` says and using clients configured as `api`
/// and `client`.
pub open spec fn is_job_for(
    j: DownloadJob,
    base: PathBuf,
    dir: Seq<Seq<char>>,
    f: FileEntry,
    reverse: bool,
    api: Api,
    client: Client,
) -> bool {
    &&& j.filename@ == f.filename@
    &&& j.path.base == base
    &&& j.path.names() == dir.push(f.filename@)
    &&& j.size == f.size
    &&& j.download_link@ == f.normal_download@
    &&& j.hash@ == f.hash@
    &&& j.reverse == reverse
    &&& uses_clients(j, api, client)
}

/// The files of a chunk of folder contents (none when absent).
pub open spec fn content_files(c: FolderContent) -> Seq<FileEntry> {
    match c.files {
        Some(v) => v@,
        None => Seq::empty(),
    }
}

/// The keys still to resolve after the chunk `c` of the contents of the
/// folder `name` (pending as `p`) arrived, in the order they are pushed: each
/// subfolder, under the directory `name`, from its first chunk; then, when
/// more chunks follow, the folder itself at its next chunk.
pub open spec fn content_pushes(p: PendingView, name: Seq<char>, c: FolderContent) -> Seq<
    PendingView,
> {
    let sub = match c.folders {
        Some(v) => v@.map_values(
            |k: String| PendingView { key: KeyView::Folder(k@), dir: p.dir.push(name), chunk: 1 },
        ),
        None => Seq::empty(),
    };
    if c.more_chunks@ == "yes"@ {
        sub.push(PendingView { key: p.key, dir: p.dir, chunk: (p.chunk + 1) as u64 })
    } else {
        sub
    }
}

/// A traversal of MediaFire keys that collects a download job for every file.
pub struct JobWalk {
    pub stack: Vec<Pending>,
    pub phase: WalkPhase,
    pub queue: JobQueue,
    pub base: PathBuf,
    pub reverse: bool,
    pub api_client: Api,
    pub download_client: Client,
}

impl JobWalk {
    /// The pending keys as values; the last is taken next.
    pub open spec fn pending(&self) -> Seq<PendingView> {
        self.stack@.map_values(|p: Pending| p@)
    }

    /// `j` belongs to this walk: it lies below the walk's base, sorts as the
    /// walk says and uses clients configured as the walk's.
    pub open spec fn owns(&self, j: DownloadJob) -> bool {
        &&& j.path.base == self.base
        &&& j.reverse == self.reverse
        &&& uses_clients(j, self.api_client, self.download_client)
    }

    /// The walk is well formed: its queue is, it owns every queued job, and
    /// every pending chunk is at least the first.
    pub open spec fn wf(&self) -> bool {
        &&& self.queue.wf()
        &&& forall|j: DownloadJob| #[trigger]
            self.queue.items().count(j) > 0 ==> self.owns(j)
        &&& forall|i: int| 0 <= i < self.stack@.len() ==> #[trigger] self.stack@[i].chunk >= 1
        &&& match self.phase {
            WalkPhase::Idle => true,
            WalkPhase::AwaitInfo(p) => p.chunk >= 1,
            WalkPhase::AwaitContent(p, _) => p.chunk >= 1,
        }
    }

    /// A walk over `keys`, the first key resolved first, with every file
    /// placed below `base`.
    pub fn new(keys: Vec<ItemKey>, base: PathBuf, reverse: bool, api_client: Api, download_client: Client) -> (w: JobWalk)
        ensures
            w.wf(),
            w.pending() == keys@.reverse().map_values(
                |k: ItemKey| PendingView { key: k@, dir: Seq::empty(), chunk: 1 },
            ),
            w.phase is Idle,
            w.queue.items() == Multiset::<DownloadJob>::empty(),
            w.base == base,
            w.reverse == reverse,
            w.api_client == api_client,
            w.download_client == download_client,
    {
        let mut keys = keys;
        let ghost original = keys@;
        let mut stack: Vec<Pending> = Vec::new();
        while keys.len() > 0
            invariant
                keys.len() <= original.len(),
                keys@ == original.take(keys.len() as int),
                stack@.map_values(|p: Pending| p@) == original.skip(keys.len() as int).reverse().map_values(
                    |k: ItemKey| PendingView { key: k@, dir: Seq::empty(), chunk: 1 },
                ),
                forall|i: int| 0 <= i < stack@.len() ==> #[trigger] stack@[i].chunk >= 1,
            decreases keys.len(),
        {
            let ghost n = keys.len() as int;
            let ghost old_stack = stack@;
            let k = keys.pop().unwrap();
            assert(keys@ =~= original.take(n - 1));
            assert(k == original[n - 1]);
            let p = Pending { key: k, parts: Vec::new(), chunk: 1 };
            proof {
                assert(names_of(p.parts@) =~= Seq::<Seq<char>>::empty());
            }
            stack.push(p);
            proof {
                let f = |k: ItemKey| PendingView { key: k@, dir: Seq::empty(), chunk: 1 };
                assert(original.skip(n - 1).reverse() =~= original.skip(n).reverse().push(
                    original[n - 1],
                ));
                assert(stack@ == old_stack.push(p));
                assert(stack@.map_values(|p: Pending| p@) =~= old_stack.map_values(
                    |p: Pending| p@,
                ).push(p@));
                assert(original.skip(n - 1).reverse().map_values(f) =~= original.skip(
                    n,
                ).reverse().map_values(f).push(f(original[n - 1])));
            }
        }
        assert(original.skip(0) =~= original);
        JobWalk {
            stack,
            phase: WalkPhase::Idle,
            queue: JobQueue::new(),
            base,
            reverse,
            api_client,
            download_client,
        }
    }

    /// Takes the next step of the traversal: the request to answer next.
    ///
    /// When idle, the most recently pushed pending key is taken and its
    /// information requested (or, with none left, the walk is finished);
    /// while a reply is awaited, the awaited request is repeated.
    pub fn next_request(&mut self) -> (r: WalkRequest)
        requires
            old(self).wf(),
        ensures
            final(self).wf(),
            final(self).queue == old(self).queue,
            final(self).base == old(self).base,
            final(self).reverse == old(self).reverse,
            final(self).api_client == old(self).api_client,
            final(self).download_client == old(self).download_client,
            match old(self).phase {
                WalkPhase::Idle => if old(self).pending().len() == 0 {
                    &&& r is Finished
                    &&& final(self).pending() == old(self).pending()
                    &&& final(self).phase is Idle
                } else {
                    &&& r matches WalkRequest::Info(k) && k@ == old(self).pending().last().key
                    &&& final(self).pending() == old(self).pending().drop_last()
                    &&& final(self).phase matches WalkPhase::AwaitInfo(p) && p@ == old(
                        self,
                    ).pending().last()
                },
                WalkPhase::AwaitInfo(p) => {
                    &&& r matches WalkRequest::Info(k) && k@ == p.key@
                    &&& final(self).pending() == old(self).pending()
                    &&& final(self).phase == old(self).phase
                },
                WalkPhase::AwaitContent(p, n) => {
                    &&& r matches WalkRequest::Content { key, chunk, folder_name } && key@
                        == p.key@ && chunk == p.chunk && folder_name@ == n@
                    &&& final(self).pending() == old(self).pending()
                    &&& final(self).phase == old(self).phase
                },
            },
    {
        match &self.phase {
            WalkPhase::Idle => {},
            WalkPhase::AwaitInfo(p) => {
                return WalkRequest::Info(p.key.duplicate());
            },
            WalkPhase::AwaitContent(p, n) => {
                return WalkRequest::Content {
                    key: p.key.duplicate(),
                    chunk: p.chunk,
                    folder_name: n.clone(),
                };
            },
        }
        let ghost before = self.stack@;
        match self.stack.pop() {
            None => WalkRequest::Finished,
            Some(p) => {
                proof {
                    assert(self.stack@ == before.drop_last());
                    assert(self.pending() =~= old(self).pending().drop_last());
                    assert(before[before.len() - 1].chunk >= 1);
                }
                let k = p.key.duplicate();
                self.phase = WalkPhase::AwaitInfo(p);
                WalkRequest::Info(k)
            },
        }
    }

    /// The job for the file `f` found under the directories `parts`.
    fn job_for(&self, parts: &Vec<String>, f: FileEntry) -> (j: DownloadJob)
        ensures
            is_job_for(j, self.base, names_of(parts@), f, self.reverse, self.api_client, self.download_client),
    {
        let dir = JobPath { base: self.base.clone(), parts: copy_names(parts) };
        let path = dir.join(&f.filename);
        DownloadJob::new(
            f.filename,
            path,
            f.size,
            f.normal_download,
            f.hash,
            self.reverse,
            self.api_client.clone(),
            self.download_client.clone(),
        )
    }

    /// Takes the information on the awaited key. A file becomes a job under the
    /// pending key's directories; for a folder, a chunk of its contents is
    /// awaited next. A failed request fails the walk. Information that is not
    /// awaited is ignored.
    pub fn on_info(&mut self, info: Result<ItemInfo, ApiFailure>) -> (r: Result<(), DownloadError>)
        requires
            old(self).wf(),
        ensures
            final(self).wf(),
            final(self).pending() == old(self).pending(),
            final(self).base == old(self).base,
            final(self).reverse == old(self).reverse,
            final(self).api_client == old(self).api_client,
            final(self).download_client == old(self).download_client,
            match old(self).phase {
                WalkPhase::AwaitInfo(p) => match info {
                    Err(e) => {
                        &&& r == Err::<(), DownloadError>(DownloadError::ApiError(e))
                        &&& final(self).phase == old(self).phase
                        &&& final(self).queue == old(self).queue
                    },
                    Ok(ItemInfo::File(f)) => {
                        &&& r is Ok
                        &&& final(self).phase is Idle
                        &&& final(self).queue.wf()
                        &&& exists|j: DownloadJob|
                            is_job_for(j, old(self).base, p@.dir, f, old(self).reverse, old(self).api_client, old(self).download_client)
                                && final(self).queue.items() == old(self).queue.items().insert(j)
                    },
                    Ok(ItemInfo::Folder(n)) => {
                        &&& r is Ok
                        &&& final(self).phase matches WalkPhase::AwaitContent(q, m) && q@ == p@
                            && m@ == n@
                        &&& final(self).queue == old(self).queue
                    },
                },
                _ => {
                    &&& r is Ok
                    &&& final(self).phase == old(self).phase
                    &&& final(self).queue == old(self).queue
                },
            },
    {
        let mut phase = WalkPhase::Idle;
        std::mem::swap(&mut phase, &mut self.phase);
        match phase {
            WalkPhase::AwaitInfo(p) => match info {
                Err(e) => {
                    self.phase = WalkPhase::AwaitInfo(p);
                    Err(DownloadError::ApiError(e))
                },
                Ok(ItemInfo::File(f)) => {
                    let job = self.job_for(&p.parts, f);
                    let ghost j = job;
                    self.queue.push(job);
                    proof {
                        broadcast use vstd::multiset::group_multiset_axioms;
                        assert forall|k: DownloadJob| #[trigger]
                            self.queue.items().count(k) > 0 implies self.owns(k) by {
                            if k != j {
                                assert(old(self).queue.items().count(k) > 0);
                            }
                        }
                    }
                    Ok(())
                },
                Ok(ItemInfo::Folder(n)) => {
                    self.phase = WalkPhase::AwaitContent(p, n);
                    Ok(())
                },
            },
            other => {
                self.phase = other;
                Ok(())
            },
        }
    }


    /// Takes the awaited chunk of a folder's contents: each file becomes a job
    /// under the folder's directory; each subfolder is pushed, under that
    /// directory, from its first chunk; and when more chunks follow, the
    /// folder is pushed again at its next chunk. A failed request fails the
    /// walk. Contents that are not awaited are ignored.
    pub fn on_content(&mut self, content: Result<FolderContent, ApiFailure>) -> (r: Result<
        (),
        DownloadError,
    >)
        requires
            old(self).wf(),
            old(self).phase matches WalkPhase::AwaitContent(p, _) ==> (content matches Ok(c)
                ==> c.more_chunks@ == "yes"@ ==> p.chunk < u64::MAX),
        ensures
            final(self).wf(),
            final(self).base == old(self).base,
            final(self).reverse == old(self).reverse,
            final(self).api_client == old(self).api_client,
            final(self).download_client == old(self).download_client,
            match old(self).phase {
                WalkPhase::AwaitContent(p, n) => match content {
                    Err(e) => {
                        &&& r == Err::<(), DownloadError>(DownloadError::ApiError(e))
                        &&& final(self).phase == old(self).phase
                        &&& final(self).pending() == old(self).pending()
                        &&& final(self).queue == old(self).queue
                    },
                    Ok(c) => {
                        &&& r is Ok
                        &&& final(self).phase is Idle
                        &&& final(self).pending() == old(self).pending() + content_pushes(
                            p@,
                            n@,
                            c,
                        )
                        &&& exists|js: Seq<DownloadJob>|
                            #![trigger js.to_multiset()]
                            js.len() == content_files(c).len() && (forall|i: int|
                                0 <= i < js.len() ==> is_job_for(
                                    #[trigger] js[i],
                                    old(self).base,
                                    p@.dir.push(n@),
                                    content_files(c)[i],
                                    old(self).reverse,
                                    old(self).api_client,
                                    old(self).download_client,
                                )) && final(self).queue.items() == old(self).queue.items().add(
                                js.to_multiset(),
                            )
                    },
                },
                _ => {
                    &&& r is Ok
                    &&& final(self).phase == old(self).phase
                    &&& final(self).pending() == old(self).pending()
                    &&& final(self).queue == old(self).queue
                },
            },
    {
        let mut phase = WalkPhase::Idle;
        std::mem::swap(&mut phase, &mut self.phase);
        match phase {
            WalkPhase::AwaitContent(p, n) => match content {
                Err(e) => {
                    self.phase = WalkPhase::AwaitContent(p, n);
                    Err(DownloadError::ApiError(e))
                },
                Ok(c) => {
                    let ghost pv = p@;
                    let ghost cg = c;
                    let mut sub = copy_names(&p.parts);
                    sub.push(n.clone());
                    assert(names_of(sub@) =~= pv.dir.push(n@));
                    let ghost files = content_files(c);
                    let ghost mut js: Seq<DownloadJob> = Seq::empty();
                    let ghost items0 = self.queue.items();
                    proof {
                        broadcast use vstd::multiset::group_multiset_axioms;
                        broadcast use vstd::seq_lib::group_to_multiset_ensures;
                        assert(js.to_multiset() =~= Multiset::<DownloadJob>::empty());
                        assert(items0.add(js.to_multiset()) =~= items0);
                    }
                    match &c.files {
                        None => {},
                        Some(fs) => {
                            let mut i: usize = 0;
                            while i < fs.len()
                                invariant
                                    i <= fs.len(),
                                    fs@ == files,
                                    names_of(sub@) == pv.dir.push(n@),
                                    js.len() == i,
                                    forall|t: int|
                                        0 <= t < i ==> is_job_for(
                                            #[trigger] js[t],
                                            self.base,
                                            pv.dir.push(n@),
                                            files[t],
                                            self.reverse,
                                            self.api_client,
                                            self.download_client,
                                        ),
                                    self.queue.wf(),
                                    self.queue.items() == items0.add(js.to_multiset()),
                                    self.base == old(self).base,
                                    self.reverse == old(self).reverse,
                                    self.api_client == old(self).api_client,
                                    self.download_client == old(self).download_client,
                                    self.stack == old(self).stack,
                                    self.phase is Idle,
                                decreases fs.len() - i,
                            {
                                let job = self.job_for(&sub, fs[i].duplicate());
                                let ghost j = job;
                                self.queue.push(job);
                                proof {
                                    broadcast use vstd::multiset::group_multiset_axioms;
                                    broadcast use vstd::seq_lib::group_to_multiset_ensures;
                                    assert(js.push(j).to_multiset() =~= js.to_multiset().insert(j));
                                    assert(items0.add(js.to_multiset()).insert(j) =~= items0.add(
                                        js.push(j).to_multiset(),
                                    ));
                                    js = js.push(j);
                                }
                                i = i + 1;
                            }
                        },
                    }
                    proof {
                        broadcast use vstd::multiset::group_multiset_axioms;
                        broadcast use vstd::seq_lib::group_to_multiset_ensures;
                        assert forall|k: DownloadJob| #[trigger]
                            self.queue.items().count(k) > 0 implies self.owns(k) by {
                            if items0.count(k) == 0 {
                                assert(js.to_multiset().count(k) > 0);
                                assert(js.contains(k));
                                let t = choose|t: int| 0 <= t < js.len() && js[t] == k;
                                assert(is_job_for(js[t], self.base, pv.dir.push(n@), files[t], self.reverse, self.api_client, self.download_client));
                            }
                        }
                    }
                    let ghost stack0 = self.stack@;
                    let ghost queue1 = self.queue;
                    let ghost phase1 = self.phase;
                    assert(stack0 == old(self).stack@);
                    let ghost sub_pushes = match cg.folders {
                        Some(v) => v@.map_values(
                            |k: String|
                                PendingView {
                                    key: KeyView::Folder(k@),
                                    dir: pv.dir.push(n@),
                                    chunk: 1,
                                },
                        ),
                        None => Seq::empty(),
                    };
                    match &c.folders {
                        None => {
                            assert(self.stack@.map_values(|q: Pending| q@) =~= old(self).pending()
                                + sub_pushes);
                        },
                        Some(ks) => {
                            let mut i: usize = 0;
                            while i < ks.len()
                                invariant
                                    i <= ks.len(),
                                    names_of(sub@) == pv.dir.push(n@),
                                    self.stack@.len() == stack0.len() + i,
                                    forall|t: int| 0 <= t < stack0.len() ==> self.stack@[t] == stack0[t],
                                    self.queue == queue1,
                                    self.phase == phase1,
                                    self.base == old(self).base,
                                    self.reverse == old(self).reverse,
                                    self.api_client == old(self).api_client,
                                    self.download_client == old(self).download_client,
                                    forall|t: int|
                                        0 <= t < self.stack@.len() ==> #[trigger] self.stack@[t].chunk
                                            >= 1,
                                    forall|t: int|
                                        0 <= t < i ==> #[trigger] self.stack@[stack0.len() + t]@
                                            == (PendingView {
                                            key: KeyView::Folder(ks@[t]@),
                                            dir: pv.dir.push(n@),
                                            chunk: 1,
                                        }),
                                decreases ks.len() - i,
                            {
                                let entry = Pending {
                                    key: ItemKey::Folder(ks[i].clone()),
                                    parts: copy_names(&sub),
                                    chunk: 1,
                                };
                                self.stack.push(entry);
                                i = i + 1;
                            }
                            assert(ks@.len() == sub_pushes.len());
                            assert forall|t: int|
                                0 <= t < self.stack@.len() implies #[trigger] self.stack@[t]@ == (old(
                                self,
                            ).pending() + sub_pushes)[t] by {
                                if t >= stack0.len() {
                                    let u: int = t - stack0.len();
                                    assert(self.stack@[stack0.len() + u]@ == sub_pushes[u]);
                                }
                            }
                            assert(self.stack@.map_values(|q: Pending| q@) =~= old(self).pending()
                                + sub_pushes);
                        },
                    }
                    let ghost stack1 = self.stack@;
                    let yes = "yes".to_string();
                    if c.more_chunks == yes {
                        self.stack.push(Pending { key: p.key, parts: p.parts, chunk: p.chunk + 1 });
                    }
                    proof {
                        let pushes = content_pushes(pv, n@, cg);
                        assert(self.pending() =~= old(self).pending() + pushes);
                        assert(forall|t: int|
                            0 <= t < self.stack@.len() ==> #[trigger] self.stack@[t].chunk >= 1);
                        assert(self.queue.wf());
                        assert(self.phase is Idle);
                        assert(self.queue.items() == items0.add(js.to_multiset()));
                        assert(js.len() == content_files(cg).len());
                        assert(forall|k: DownloadJob| #[trigger]
                            self.queue.items().count(k) > 0 ==> self.owns(k));
                    }
                    Ok(())
                },
            },
            other => {
                self.phase = other;
                Ok(())
            },
        }
    }

    /// The chunk of the awaited folder contents, if contents are awaited.
    pub fn current_chunk(&self) -> (r: Option<u64>)
        ensures
            match self.phase {
                WalkPhase::AwaitContent(p, _) => r == Some(p.chunk),
                _ => r is None,
            },
    {
        match &self.phase {
            WalkPhase::AwaitContent(p, _) => Some(p.chunk),
            _ => None,
        }
    }

    /// The jobs collected so far.
    pub fn into_queue(self) -> (q: JobQueue)
        ensures
            q == self.queue,
    {
        self.queue
    }
}

/// Every job a walk collects lies below the walk's base, uses clients
/// configured as the walk's (so the downloader's proxies apply to its
/// downloads) and sorts as the walk was configured, so its queue yields the largest file first, or the
/// smallest first when the walk sorts in reverse.
pub proof fn law_walk_jobs_follow_configuration(w: JobWalk)
    requires
        w.wf(),
    ensures
        forall|j: DownloadJob| #[trigger]
            w.queue.items().count(j) > 0 ==> j.path.base == w.base && j.reverse == w.reverse
                && uses_clients(j, w.api_client, w.download_client),
        w.reverse ==> forall|i: int, k: int|
            0 <= i < k < w.queue.drain_order().len() ==> w.queue.drain_order()[i].size
                <= w.queue.drain_order()[k].size,
        !w.reverse ==> forall|i: int, k: int|
            0 <= i < k < w.queue.drain_order().len() ==> w.queue.drain_order()[i].size
                >= w.queue.drain_order()[k].size,
{
    law_drain_in_rank_order(w.queue);
    let d = w.queue.drain_order();
    assert forall|i: int| 0 <= i < d.len() implies #[trigger] d[i].reverse == w.reverse by {
        broadcast use vstd::seq_lib::group_to_multiset_ensures;
        assert(d.contains(d[i]));
        assert(w.queue.items().count(d[i]) > 0);
    }
}

/// After a chunk of a folder's contents arrives, every subfolder it lists is
/// pending from its first chunk, keyed as a folder, under the directory named
/// after the folder, in the order listed; when more chunks follow, the folder
/// itself is pending last, from its next chunk; nothing else is pushed.
pub proof fn law_subfolders_pending_from_first_chunk(
    p: PendingView,
    name: Seq<char>,
    c: FolderContent,
)
    ensures
        ({
            let folders: Seq<String> = match c.folders {
                Some(v) => v@,
                None => Seq::empty(),
            };
            let pushes = content_pushes(p, name, c);
            let more: bool = c.more_chunks@ == "yes"@;
            &&& pushes.len() == folders.len() + (if more {
                1int
            } else {
                0int
            })
            &&& forall|i: int|
                0 <= i < folders.len() ==> {
                    &&& #[trigger] pushes[i].chunk == 1
                    &&& pushes[i].key == KeyView::Folder(folders[i]@)
                    &&& pushes[i].dir == p.dir.push(name)
                }
            &&& more ==> pushes[folders.len() as int] == PendingView {
                key: p.key,
                dir: p.dir,
                chunk: (p.chunk + 1) as u64,
            }
        }),
{
}

/// Every job that a well-formed walk collects uses clients configured as
/// `api` and `client` when the walk's own clients are configured as those:
/// the same retry count and proxies for the API, the same default headers and
/// proxies for downloads.
pub proof fn law_walk_jobs_use_clients(w: JobWalk, api: Api, client: Client)
    requires
        w.wf(),
        api_retries(w.api_client) == api_retries(api),
        api_proxies(w.api_client) == api_proxies(api),
        client_headers(w.download_client) == client_headers(client),
        client_proxies(w.download_client) == client_proxies(client),
    ensures
        forall|j: DownloadJob| #[trigger] w.queue.items().count(j) > 0 ==> uses_clients(j, api, client),
{
    assert forall|j: DownloadJob| #[trigger] w.queue.items().count(j) > 0 implies uses_clients(
        j,
        api,
        client,
    ) by {
        assert(w.owns(j));
    }
}

/// A copy of a list of names.
pub fn copy_names(v: &Vec<String>) -> (r: Vec<String>)
    ensures
        r@ == v@,
{
    let mut r: Vec<String> = Vec::new();
    let mut i: usize = 0;
    while i < v.len()
        invariant
            i <= v.len(),
            r@ == v@.take(i as int),
        decreases v.len() - i,
    {
        r.push(v[i].clone());
        i = i + 1;
        assert(r@ =~= v@.take(i as int));
    }
    assert(v@.take(v.len() as int) =~= v@);
    r
}

} // verus!
