//! The downloader: API and HTTP clients, proxies, and the job order.

use vstd::prelude::*;
use md_api::Api;
use reqwest::Client;
use std::path::PathBuf;
use crate::outside::{
    accept_encoding_name, api_error_from, api_extract_keys, api_new, api_proxies, api_retries,
    api_with_proxies, build_client, builder_headers, builder_proxies, builder_with_proxy,
    client_headers, client_proxies, gzip_client_builder, gzip_value, keys_in_urls,
    plain_client_builder, proxy_all, proxy_url_accepted,
};
use crate::types::download_error::{ApiFailure, DownloadError};
use crate::types::download_job::DownloadJob;
use crate::walk::{ItemKey, JobWalk, KeyView, PendingView};

verus! {

/// Communicates with the MediaFire API, resolves files and folders into
/// download jobs, and holds the HTTP client that downloads them.
pub struct MediafireDownloader {
    pub api_client: Api,
    pub download_client: Client,
    /// Whether jobs sort by ascending size (otherwise descending).
    pub reverse_downloads: bool,
}

/// The index of the first URL in `proxies` that `Proxy::all` refuses, if any.
pub open spec fn first_refused(proxies: Seq<Seq<char>>) -> Option<int> {
    if exists|i: int| 0 <= i < proxies.len() && !proxy_url_accepted(#[trigger] proxies[i]) {
        Some(
            choose|i: int|
                0 <= i < proxies.len() && !proxy_url_accepted(#[trigger] proxies[i]) && forall|j: int|
                    0 <= j < i ==> proxy_url_accepted(#[trigger] proxies[j]),
        )
    } else {
        None
    }
}

/// The first refused URL is the one at `i` when every URL before it is
/// accepted and it is not.
proof fn lemma_first_refused(proxies: Seq<Seq<char>>, i: int)
    requires
        0 <= i < proxies.len(),
        !proxy_url_accepted(proxies[i]),
        forall|j: int| 0 <= j < i ==> proxy_url_accepted(#[trigger] proxies[j]),
    ensures
        first_refused(proxies) == Some(i),
{
    let k = choose|k: int|
        0 <= k < proxies.len() && !proxy_url_accepted(#[trigger] proxies[k]) && forall|j: int|
            0 <= j < k ==> proxy_url_accepted(#[trigger] proxies[j]);
    assert(0 <= k < proxies.len() && !proxy_url_accepted(proxies[k]) && forall|j: int|
        0 <= j < k ==> proxy_url_accepted(#[trigger] proxies[j]));
    if k < i {
        assert(proxy_url_accepted(proxies[k]));
    } else if k > i {
        assert(proxy_url_accepted(proxies[i]));
    }
}

impl MediafireDownloader {
    /// Creates a downloader whose API client retries failed requests up to
    /// `max_retries` times, with a default HTTP client that asks for gzip
    /// responses, and jobs sorted by descending size.
    ///
    /// Fails with `ApiError(ClientInitError)` when the API client's HTTP client
    /// cannot be built, otherwise with `ClientInitError` when the download
    /// client cannot be built (see [`MediafireDownloader::from_clients`]).
    pub fn new(max_retries: u64) -> (r: Result<Self, DownloadError>)
        ensures
            r matches Ok(d) ==> {
                &&& !d.reverse_downloads
                &&& api_retries(d.api_client) == max_retries
                &&& api_proxies(d.api_client) == Seq::<Seq<char>>::empty()
                &&& client_headers(d.download_client).contains_key(accept_encoding_name())
                &&& client_headers(d.download_client)[accept_encoding_name()] == seq![gzip_value()]
                &&& client_proxies(d.download_client) == Seq::<Seq<char>>::empty()
            },
            r matches Err(e) ==> e == DownloadError::ApiError(ApiFailure::ClientInitError)
                || e == DownloadError::ClientInitError,
    {
        let api = api_new(max_retries);
        let download = build_client(gzip_client_builder());
        Self::from_clients(api, download)
    }

    /// The downloader made of the outcomes of building its two clients: a
    /// failed API client gives `ApiError` with its failure; otherwise a failed
    /// download client gives `ClientInitError`; otherwise a downloader with
    /// both clients that sorts jobs by descending size.
    pub fn from_clients(api: Result<Api, ApiFailure>, download: Result<Client, reqwest::Error>) -> (r: Result<
        Self,
        DownloadError,
    >)
        ensures
            match api {
                Err(e) => r == Err::<Self, DownloadError>(DownloadError::ApiError(e)),
                Ok(a) => match download {
                    Err(_) => r == Err::<Self, DownloadError>(DownloadError::ClientInitError),
                    Ok(c) => r matches Ok(d) && d.api_client == a && d.download_client == c
                        && !d.reverse_downloads,
                },
            },
    {
        let api_client = match api {
            Ok(a) => a,
            Err(e) => return Err(DownloadError::ApiError(e)),
        };
        let download_client = match download {
            Ok(c) => c,
            Err(_) => return Err(DownloadError::ClientInitError),
        };
        Ok(MediafireDownloader { api_client, download_client, reverse_downloads: false })
    }

    /// The downloader with jobs sorted by ascending size when `value` holds,
    /// by descending size otherwise.
    pub fn reverse_downloads(self, value: bool) -> (r: Self)
        ensures
            r.reverse_downloads == value,
            r.api_client == self.api_client,
            r.download_client == self.download_client,
    {
        MediafireDownloader { reverse_downloads: value, ..self }
    }

    /// Sends API calls, and downloads too when `proxy_downloads` holds,
    /// through `proxies`. With `None`, the downloader is returned unchanged.
    ///
    /// When downloads are proxied, the first proxy URL that cannot be parsed
    /// fails with `InvalidProxy` carrying it, and a download client that
    /// cannot be built fails with `ClientInitError`. A failure to reconfigure
    /// the API client fails with `ApiError(InvalidProxies)` (see
    /// [`MediafireDownloader::from_proxied_clients`]).
    pub fn set_proxies(self, proxies: Option<Vec<String>>, proxy_downloads: bool) -> (r: Result<
        Self,
        DownloadError,
    >)
        ensures
            proxies is None ==> r == Ok::<Self, DownloadError>(self),
            proxies matches Some(ps) ==> {
                let urls = ps@.map_values(|p: String| p@);
                &&& proxy_downloads && first_refused(urls) is Some ==> (r matches Err(
                    DownloadError::InvalidProxy(bad),
                ) && bad@ == urls[first_refused(urls)->Some_0])
                &&& first_refused(urls) is None ==> (r is Ok || (r matches Err(e) && (e is ApiError
                    || (proxy_downloads && e is ClientInitError))))
                &&& !proxy_downloads && first_refused(urls) is Some ==> (r matches Err(e)
                    && e is ApiError)
                &&& r matches Ok(d) ==> (d.reverse_downloads == self.reverse_downloads
                    && api_proxies(d.api_client) == urls
                    && api_retries(d.api_client) == api_retries(self.api_client)
                    && (!proxy_downloads ==> d.download_client == self.download_client)
                    && (proxy_downloads ==> client_proxies(d.download_client) == urls
                        && !client_headers(d.download_client).contains_key(accept_encoding_name())))
                &&& r matches Err(DownloadError::ApiError(e)) ==> e == ApiFailure::InvalidProxies
            },
    {
        match proxies {
            None => Ok(self),
            Some(ps) => {
                let ghost urls = ps@.map_values(|p: String| p@);
                let download_client = if proxy_downloads {
                    let mut builder = plain_client_builder();
                    let mut i: usize = 0;
                    while i < ps.len()
                        invariant
                            proxies == Some(ps),
                            proxy_downloads,
                            i <= ps.len(),
                            urls == ps@.map_values(|p: String| p@),
                            forall|j: int| 0 <= j < i ==> proxy_url_accepted(#[trigger] urls[j]),
                            builder_proxies(builder) == urls.take(i as int),
                            !builder_headers(builder).contains_key(accept_encoding_name()),
                        decreases ps.len() - i,
                    {
                        match proxy_all(ps[i].clone()) {
                            Ok(p) => {
                                builder = builder_with_proxy(builder, p);
                                assert(urls.take(i + 1) =~= urls.take(i as int).push(urls[i as int]));
                            },
                            Err(_) => {
                                proof {
                                    assert(!proxy_url_accepted(urls[i as int]));
                                    lemma_first_refused(urls, i as int);
                                }
                                return Err(DownloadError::InvalidProxy(ps[i].clone()));
                            },
                        }
                        i = i + 1;
                    }
                    assert(first_refused(urls) is None) by {
                        if exists|k: int| 0 <= k < urls.len() && !proxy_url_accepted(#[trigger] urls[k]) {
                            let k = choose|k: int| 0 <= k < urls.len() && !proxy_url_accepted(#[trigger] urls[k]);
                            assert(proxy_url_accepted(urls[k]));
                        }
                    }
                    assert(urls.take(ps.len() as int) =~= urls);
                    build_client(builder)
                } else {
                    Ok(self.download_client)
                };
                let reverse_downloads = self.reverse_downloads;
                let api = api_with_proxies(self.api_client, ps);
                proof {
                    if api is Ok {
                        assert forall|j: int| 0 <= j < urls.len() implies proxy_url_accepted(
                            #[trigger] urls[j],
                        ) by {}
                    }
                }
                Self::from_proxied_clients(download_client, api, reverse_downloads)
            },
        }
    }

    /// The downloader made of the outcomes of rebuilding its clients with
    /// proxies: a failed download client gives `ClientInitError`; otherwise a
    /// failed API client gives `ApiError` with its failure; otherwise a
    /// downloader with both clients that sorts as `reverse_downloads` says.
    pub fn from_proxied_clients(
        download: Result<Client, reqwest::Error>,
        api: Result<Api, ApiFailure>,
        reverse_downloads: bool,
    ) -> (r: Result<Self, DownloadError>)
        ensures
            match download {
                Err(_) => r == Err::<Self, DownloadError>(DownloadError::ClientInitError),
                Ok(c) => match api {
                    Err(e) => r == Err::<Self, DownloadError>(DownloadError::ApiError(e)),
                    Ok(a) => r matches Ok(d) && d.api_client == a && d.download_client == c
                        && d.reverse_downloads == reverse_downloads,
                },
            },
    {
        let download_client = match download {
            Ok(c) => c,
            Err(_) => return Err(DownloadError::ClientInitError),
        };
        match api {
            Ok(api_client) => Ok(MediafireDownloader { api_client, download_client, reverse_downloads }),
            Err(e) => Err(DownloadError::ApiError(e)),
        }
    }

    /// Starts resolving `urls` into download jobs placed below `output_path`,
    /// sorted as this downloader is configured: a walk over the keys in the
    /// URLs, the first key resolved first.
    pub fn job_walk(&self, urls: &Vec<String>, output_path: PathBuf) -> (r: Result<
        JobWalk,
        DownloadError,
    >)
        ensures
            r matches Ok(w) && w.wf() && w.phase is Idle && w.base == output_path && w.reverse
                == self.reverse_downloads && w.queue.items().len() == 0 && w.pending()
                == keys_in_urls(urls@.map_values(|u: String| u@)).reverse().map_values(
                |k: KeyView| PendingView { key: k, dir: Seq::empty(), chunk: 1 },
            ),
            r matches Ok(w) ==> {
                &&& api_retries(w.api_client) == api_retries(self.api_client)
                &&& api_proxies(w.api_client) == api_proxies(self.api_client)
                &&& client_headers(w.download_client) == client_headers(self.download_client)
                &&& client_proxies(w.download_client) == client_proxies(self.download_client)
            },
    {
        match api_extract_keys(&self.api_client, urls) {
            Ok(keys) => {
                let ghost kv = keys@;
                let w = JobWalk::new(
                    keys,
                    output_path,
                    self.reverse_downloads,
                    self.api_client.clone(),
                    self.download_client.clone(),
                );
                proof {
                    let f = |k: ItemKey| PendingView { key: k@, dir: Seq::empty(), chunk: 1 };
                    let g = |k: KeyView| PendingView { key: k, dir: Seq::empty(), chunk: 1 };
                    let views = kv.map_values(|k: ItemKey| k@);
                    assert(kv.reverse().map_values(f) =~= views.reverse().map_values(g));
                    broadcast use vstd::multiset::group_multiset_axioms;
                }
                Ok(w)
            },
            Err(e) => Err(DownloadError::ApiError(api_error_from(e))),
        }
    }
}

} // verus!
