//! Declarations of the outside types that the library carries, and the
//! wrappers through which it calls outside code.

use vstd::prelude::*;
use md_api::Api;
use reqwest::header::{HeaderMap, HeaderValue};
use reqwest::{Client, ClientBuilder, Proxy};
use std::path::PathBuf;
use crate::types::download_error::ApiFailure;
use crate::walk::{ItemKey, KeyView};

verus! {

/// `reqwest::header::HeaderMap` (from the `http` crate), carried opaquely.
#[verifier::external_type_specification]
#[verifier::external_body]
#[verifier::reject_recursive_types(T)]
pub struct ExHeaderMap<T>(HeaderMap<T>);

/// `reqwest::header::HeaderValue`, the type of a header map's values, carried
/// opaquely.
#[verifier::external_type_specification]
#[verifier::external_body]
pub struct ExHeaderValue(HeaderValue);

/// What a header map holds: for each header name, in lowercase, the bytes of
/// its values in the order in which they were added.
pub uninterp spec fn header_values(headers: HeaderMap) -> Map<Seq<char>, Seq<Seq<u8>>>;

/// The header name `set-cookie`.
pub open spec fn set_cookie_name() -> Seq<char> {
    seq!['s', 'e', 't', '-', 'c', 'o', 'o', 'k', 'i', 'e']
}

/// `HeaderMap::get` for the `Set-Cookie` header, with the bytes of the value it
/// finds (`HeaderValue::as_bytes`): the first `Set-Cookie` value, if there is one.
#[verifier::external_body]
pub(crate) fn set_cookie_bytes(headers: &HeaderMap) -> (r: Option<Vec<u8>>)
    ensures
        match r {
            Some(b) => header_values(*headers).contains_key(set_cookie_name())
                && header_values(*headers)[set_cookie_name()].len() > 0
                && b@ == header_values(*headers)[set_cookie_name()][0],
            None => !header_values(*headers).contains_key(set_cookie_name())
                || header_values(*headers)[set_cookie_name()].len() == 0,
        },
{
    match headers.get(reqwest::header::SET_COOKIE) {
        Some(v) => Some(v.as_bytes().to_vec()),
        None => None,
    }
}

/// `md_api::Api`, the MediaFire API client, carried opaquely.
#[verifier::external_type_specification]
#[verifier::external_body]
pub struct ExApi(Api);

/// `Api::clone` (derived): another handle on an API client configured as
/// `a`: the same retry count and proxies.
pub assume_specification[ <Api as Clone>::clone ](a: &Api) -> (r: Api)
    ensures
        api_retries(r) == api_retries(*a),
        api_proxies(r) == api_proxies(*a),
;

/// `reqwest::Client`, the HTTP client used for downloads, carried opaquely.
#[verifier::external_type_specification]
#[verifier::external_body]
pub struct ExClient(Client);

/// `Client::clone`: another handle on the same HTTP client, with the same
/// default headers and proxies.
pub assume_specification[ <Client as Clone>::clone ](c: &Client) -> (r: Client)
    ensures
        client_headers(r) == client_headers(*c),
        client_proxies(r) == client_proxies(*c),
;

/// `std::path::PathBuf`, carried opaquely.
#[verifier::external_type_specification]
#[verifier::external_body]
pub struct ExPathBuf(PathBuf);

/// The path that `Path::join` gives for `base` with `part` adjoined.
pub uninterp spec fn path_joined(base: PathBuf, part: Seq<char>) -> PathBuf;

/// `Path::join`: `base` with `part` adjoined. Its result is a function of
/// the two alone, named `path_joined`.
#[verifier::external_body]
pub(crate) fn path_join(base: &PathBuf, part: &String) -> (r: PathBuf)
    ensures
        r == path_joined(*base, part@),
{
    base.join(part)
}

/// `PathBuf::clone`: an equal path.
pub assume_specification[ <PathBuf as Clone>::clone ](p: &PathBuf) -> (r: PathBuf)
    ensures
        r == *p,
;

/// Whether `PathBuf::eq` finds two paths equal (it compares them component
/// by component).
pub uninterp spec fn paths_equal(a: PathBuf, b: PathBuf) -> bool;

/// `PathBuf::eq`. Stated: its result is a function of the two paths, named
/// `paths_equal`, and a path equals itself.
#[verifier::external_body]
pub(crate) fn path_eq(a: &PathBuf, b: &PathBuf) -> (r: bool)
    ensures
        r == paths_equal(*a, *b),
        a == b ==> r,
{
    a == b
}

/// `md_api::types::ApiError`, carried opaquely until converted.
#[verifier::external_type_specification]
#[verifier::external_body]
pub struct ExMdApiError(md_api::types::ApiError);

/// `reqwest::ClientBuilder`, carried opaquely.
#[verifier::external_type_specification]
#[verifier::external_body]
pub struct ExClientBuilder(ClientBuilder);

/// `reqwest::Proxy`, carried opaquely.
#[verifier::external_type_specification]
#[verifier::external_body]
pub struct ExProxy(Proxy);

/// `reqwest::Error`, carried opaquely.
#[verifier::external_type_specification]
#[verifier::external_body]
pub struct ExReqwestError(reqwest::Error);

/// Converts an `md_api` error into the library's own, variant for variant.
/// Nothing is stated: the outside value is not visible here.
#[verifier::external_body]
pub(crate) fn api_error_from(e: md_api::types::ApiError) -> ApiFailure {
    match e {
        md_api::types::ApiError::InvalidUrl => ApiFailure::InvalidUrl,
        md_api::types::ApiError::InvalidKey => ApiFailure::InvalidKey,
        md_api::types::ApiError::EmptyResponse => ApiFailure::EmptyResponse,
        md_api::types::ApiError::InvalidProxies => ApiFailure::InvalidProxies,
        md_api::types::ApiError::TooManyRetries => ApiFailure::TooManyRetries,
        md_api::types::ApiError::ClientInitError => ApiFailure::ClientInitError,
        md_api::types::ApiError::JsonError(m) => ApiFailure::JsonError(m),
        md_api::types::ApiError::NetworkError(m) => ApiFailure::NetworkError(m),
    }
}

/// The number of retries that an API client was made with.
pub uninterp spec fn api_retries(api: Api) -> u64;

/// The proxy URLs that an API client was configured to send its requests
/// through (none for one made by `Api::new`).
pub uninterp spec fn api_proxies(api: Api) -> Seq<Seq<char>>;

/// `Api::new`: an API client that retries rate-limited requests up to
/// `max_retries` times, its error converted. Stated: a client it returns was
/// made with `max_retries` and no proxies, and its one failure is
/// `ClientInitError` (its source fails only when building its HTTP client
/// fails). Whether that build succeeds depends on the machine.
#[verifier::external_body]
pub(crate) fn api_new(max_retries: u64) -> (r: Result<Api, ApiFailure>)
    ensures
        r matches Ok(a) ==> api_retries(a) == max_retries,
        r matches Ok(a) ==> api_proxies(a) == Seq::<Seq<char>>::empty(),
        r matches Err(e) ==> e == ApiFailure::ClientInitError,
{
    match Api::new(max_retries) {
        Ok(a) => Ok(a),
        Err(e) => Err(api_error_from(e)),
    }
}

/// `Api::with_proxies`: the client rebuilt to send its requests through
/// `proxies`, its error converted. Stated: it succeeds only if every proxy
/// URL is accepted by `Proxy::all`, since it passes each through that call
/// and fails on the first refusal; the client it returns sends through
/// `proxies` and keeps its retry count; its one failure is `InvalidProxies`
/// (its source maps every failure to it). Whether building the client
/// succeeds depends on the machine.
#[verifier::external_body]
pub(crate) fn api_with_proxies(api: Api, proxies: Vec<String>) -> (r: Result<Api, ApiFailure>)
    ensures
        r is Ok ==> forall|i: int| 0 <= i < proxies@.len() ==> #[trigger] proxy_url_accepted(proxies@[i]@),
        r matches Ok(a) ==> api_proxies(a) == proxies@.map_values(|p: String| p@)
            && api_retries(a) == api_retries(api),
        r matches Err(e) ==> e == ApiFailure::InvalidProxies,
{
    match api.with_proxies(proxies) {
        Ok(a) => Ok(a),
        Err(e) => Err(api_error_from(e)),
    }
}

/// Whether `Proxy::all` accepts `url`: whether it parses as a URL.
pub uninterp spec fn proxy_url_accepted(url: Seq<char>) -> bool;

/// The keys that `Api::extract_keys_from_url` finds in `urls`.
pub uninterp spec fn keys_in_urls(urls: Seq<Seq<char>>) -> Seq<KeyView>;

/// `Api::extract_keys_from_url`: the file and folder keys in MediaFire URLs,
/// in order. Stated: it always succeeds (its source only ever returns `Ok`),
/// and its keys are a function of the URLs alone.
#[verifier::external_body]
pub(crate) fn api_extract_keys(api: &Api, urls: &Vec<String>) -> (r: Result<Vec<ItemKey>, md_api::types::ApiError>)
    ensures
        r is Ok,
        r is Ok ==> r->Ok_0@.map_values(|k: ItemKey| k@) == keys_in_urls(
            urls@.map_values(|u: String| u@),
        ),
{
    api.extract_keys_from_url(urls).map(|keys| {
        keys.into_iter().map(|k| match k {
            md_api::types::Key::File(s) => ItemKey::File(s),
            md_api::types::Key::Folder(s) => ItemKey::Folder(s),
        }).collect()
    })
}

/// The default headers a client builder holds: for each header name, in
/// lowercase, the bytes of its values.
pub uninterp spec fn builder_headers(builder: ClientBuilder) -> Map<Seq<char>, Seq<Seq<u8>>>;

/// The proxies added to a client builder with `ClientBuilder::proxy`, by URL,
/// in the order they were added.
pub uninterp spec fn builder_proxies(builder: ClientBuilder) -> Seq<Seq<char>>;

/// The default headers a client sends with every request.
pub uninterp spec fn client_headers(client: Client) -> Map<Seq<char>, Seq<Seq<u8>>>;

/// The proxies that were added to the builder a client was built from, by URL.
pub uninterp spec fn client_proxies(client: Client) -> Seq<Seq<char>>;

/// The URL that a proxy was made with.
pub uninterp spec fn proxy_url(proxy: Proxy) -> Seq<char>;

/// The header name `accept-encoding`.
pub open spec fn accept_encoding_name() -> Seq<char> {
    seq!['a', 'c', 'c', 'e', 'p', 't', '-', 'e', 'n', 'c', 'o', 'd', 'i', 'n', 'g']
}

/// The header value `gzip`, as bytes.
pub open spec fn gzip_value() -> Seq<u8> {
    seq![103u8, 122u8, 105u8, 112u8]
}

/// `md_api::utils::get_client_builder`: a client builder whose default
/// headers ask for gzip-compressed responses (`Accept-Encoding: gzip`), with
/// no proxy added.
#[verifier::external_body]
pub(crate) fn gzip_client_builder() -> (r: ClientBuilder)
    ensures
        builder_headers(r).contains_key(accept_encoding_name()),
        builder_headers(r)[accept_encoding_name()] == seq![gzip_value()],
        builder_proxies(r) == Seq::<Seq<char>>::empty(),
{
    md_api::utils::get_client_builder()
}

/// `Client::builder`: a client builder with reqwest's defaults, whose default
/// headers hold no `Accept-Encoding`, with no proxy added.
#[verifier::external_body]
pub(crate) fn plain_client_builder() -> (r: ClientBuilder)
    ensures
        !builder_headers(r).contains_key(accept_encoding_name()),
        builder_proxies(r) == Seq::<Seq<char>>::empty(),
{
    Client::builder()
}

/// `ClientBuilder::proxy`: the builder with `proxy` added after the proxies
/// it had, its default headers unchanged.
#[verifier::external_body]
pub(crate) fn builder_with_proxy(builder: ClientBuilder, proxy: Proxy) -> (r: ClientBuilder)
    ensures
        builder_proxies(r) == builder_proxies(builder).push(proxy_url(proxy)),
        builder_headers(r) == builder_headers(builder),
{
    builder.proxy(proxy)
}

/// `ClientBuilder::build`. Stated: a client it returns sends the builder's
/// default headers and uses the proxies added to the builder. Whether it
/// succeeds is not stated: building the client's TLS backend depends on the
/// machine.
#[verifier::external_body]
pub(crate) fn build_client(builder: ClientBuilder) -> (r: Result<Client, reqwest::Error>)
    ensures
        r matches Ok(c) ==> client_headers(c) == builder_headers(builder) && client_proxies(c)
            == builder_proxies(builder),
{
    builder.build()
}

/// `Proxy::all`: a proxy for all traffic through `url`. Stated: it succeeds
/// exactly when `url` is accepted, which depends on `url` alone, and the
/// proxy it returns was made with `url`.
#[verifier::external_body]
pub(crate) fn proxy_all(url: String) -> (r: Result<Proxy, reqwest::Error>)
    ensures
        r is Ok <==> proxy_url_accepted(url@),
        r matches Ok(p) ==> proxy_url(p) == url@,
{
    Proxy::all(url)
}

/// `md5::Context`, an MD5 computation in progress, carried opaquely.
#[verifier::external_type_specification]
#[verifier::external_body]
pub struct ExMd5Context(md5::Context);

/// `ring::digest::Context`, a digest computation in progress, carried opaquely.
#[verifier::external_type_specification]
#[verifier::external_body]
pub struct ExDigestContext(ring::digest::Context);

/// The bytes an MD5 context has consumed so far.
pub uninterp spec fn md5_fed(ctx: md5::Context) -> Seq<u8>;

/// The MD5 digest of `data`.
pub uninterp spec fn md5_digest(data: Seq<u8>) -> Seq<u8>;

/// The bytes a SHA-256 context has been updated with so far.
pub uninterp spec fn sha256_fed(ctx: ring::digest::Context) -> Seq<u8>;

/// The SHA-256 digest of `data`.
pub uninterp spec fn sha256_digest(data: Seq<u8>) -> Seq<u8>;

/// The lowercase hexadecimal digit for `d < 16`.
pub open spec fn hex_digit(d: int) -> char {
    if d < 10 {
        ((48 + d) as u32) as char
    } else {
        ((87 + d) as u32) as char
    }
}

/// `data` in lowercase hexadecimal, two digits per byte.
pub open spec fn lower_hex(data: Seq<u8>) -> Seq<char>
    decreases data.len(),
{
    if data.len() == 0 {
        Seq::empty()
    } else {
        seq![hex_digit(data[0] as int / 16), hex_digit(data[0] as int % 16)] + lower_hex(data.drop_first())
    }
}

/// `md5::Context::new`: a context that has consumed nothing.
#[verifier::external_body]
pub(crate) fn md5_start() -> (r: md5::Context)
    ensures
        md5_fed(r) == Seq::<u8>::empty(),
{
    md5::Context::new()
}

/// `md5::Context::consume`: the context has consumed `data` after what it
/// had consumed before.
#[verifier::external_body]
pub(crate) fn md5_consume(ctx: &mut md5::Context, data: &[u8])
    ensures
        md5_fed(*final(ctx)) == md5_fed(*old(ctx)) + data@,
{
    ctx.consume(data)
}

/// `md5::Context::finalize`, formatted with its `LowerHex` impl: the MD5
/// digest of all the bytes consumed, two lowercase hex digits per byte.
#[verifier::external_body]
pub(crate) fn md5_finish_hex(ctx: md5::Context) -> (r: String)
    ensures
        r@ == lower_hex(md5_digest(md5_fed(ctx))),
{
    format!("{:x}", ctx.finalize())
}

/// `ring::digest::Context::new(&SHA256)`: a SHA-256 context updated with nothing.
#[verifier::external_body]
pub(crate) fn sha256_start() -> (r: ring::digest::Context)
    ensures
        sha256_fed(r) == Seq::<u8>::empty(),
{
    ring::digest::Context::new(&ring::digest::SHA256)
}

/// `ring::digest::Context::update`: the context has been updated with `data`
/// after what it had been updated with before.
#[verifier::external_body]
pub(crate) fn sha256_update(ctx: &mut ring::digest::Context, data: &[u8])
    ensures
        sha256_fed(*final(ctx)) == sha256_fed(*old(ctx)) + data@,
{
    ctx.update(data)
}

/// `ring::digest::Context::finish`: the SHA-256 digest of all the bytes the
/// context was updated with.
#[verifier::external_body]
pub(crate) fn sha256_finish(ctx: ring::digest::Context) -> (r: Vec<u8>)
    ensures
        r@ == sha256_digest(sha256_fed(ctx)),
{
    ctx.finish().as_ref().to_vec()
}

/// `hex::encode`: `data` in lowercase hexadecimal, two digits per byte.
#[verifier::external_body]
pub(crate) fn hex_encode(data: &[u8]) -> (r: String)
    ensures
        r@ == lower_hex(data@),
{
    hex::encode(data)
}

} // verus!
