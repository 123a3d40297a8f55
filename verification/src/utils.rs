//! Scrapers for MediaFire download pages and response headers.

use vstd::prelude::*;
use crate::text::{chars_of, has_prefix, has_prefix_exec, lemma_find_first, lemma_pieces_skip, occurs_at, lemma_first_piece_free, lemma_replace_removes_char, lemma_pieces_nonempty, replace, replace_exec, split, split_nth, string_of, trim, trim_exec};
use crate::outside::{header_values, set_cookie_bytes, set_cookie_name};
use reqwest::header::HeaderMap;

verus! {

/// The marker that precedes the download link on a normal download page.
pub open spec fn download_marker() -> Seq<char> {
    "aria-label=\"Download file\""@
}

/// The marker that follows the download link on a normal download page.
pub open spec fn button_marker() -> Seq<char> {
    "id=\"downloadButton\""@
}

/// The marker that precedes the password on a malware-warning page.
pub open spec fn pass_marker() -> Seq<char> {
    "{pass: '"@
}

/// The attribute that precedes a security token on a malware-warning page.
pub open spec fn token_marker() -> Seq<char> {
    "data-security-token=\""@
}

/// The download link found on a normal download page: the text between the
/// first `aria-label="Download file"` and the next `id="downloadButton"`,
/// trimmed, with `href=` and every `"` removed; none when either marker is
/// missing.
pub open spec fn normal_html_link(html: Seq<char>) -> Option<Seq<char>> {
    let after = split(html, download_marker());
    if after.len() > 1 && split(after[1], button_marker()).len() > 1 {
        let inner = split(after[1], button_marker())[0];
        Some(replace(replace(trim(inner), "href="@, ""@), "\""@, ""@))
    } else {
        None
    }
}

/// The security token and password found on a malware-warning page: the token
/// is the value of the second `data-security-token="..."` attribute, the
/// password the text between the first `{pass: '` and the next `'`; none
/// when a marker or a closing delimiter is missing.
pub open spec fn malware_token_and_pass(html: Seq<char>) -> Option<(Seq<char>, Seq<char>)> {
    let by_pass = split(html, pass_marker());
    let by_token = split(html, token_marker());
    if by_pass.len() > 1 && by_token.len() > 2 && split(by_pass[1], "'"@).len() > 1 && split(
        by_token[2],
        "\""@,
    ).len() > 1 {
        Some((split(by_token[2], "\""@)[0], split(by_pass[1], "'"@)[0]))
    } else {
        None
    }
}

/// The `ukey` value in a `Set-Cookie` header: when its first `; `-separated
/// part is a `ukey=` cookie, that part with every `ukey=` removed; none
/// otherwise.
pub open spec fn ukey_of_cookie(cookie: Seq<char>) -> Option<Seq<char>> {
    let first = split(cookie, "; "@)[0];
    if has_prefix(first, "ukey="@) {
        Some(replace(first, "ukey="@, ""@))
    } else {
        None
    }
}

/// A link taken from a normal download page holds no double quote.
pub proof fn law_normal_link_unquoted(html: Seq<char>)
    ensures
        normal_html_link(html) matches Some(link) ==> forall|k: int|
            0 <= k < link.len() ==> link[k] != '"',
{
    reveal_strlit("\"");
    reveal_strlit("");
    if normal_html_link(html) is Some {
        let after = split(html, download_marker());
        let inner = split(after[1], button_marker())[0];
        let cleaned = replace(trim(inner), "href="@, ""@);
        assert("\""@ =~= seq!['"']);
        lemma_replace_removes_char(cleaned, '"', ""@, 0);
    }
}

/// No proper suffix of the download marker is also a prefix of it, so an
/// occurrence of the marker cannot begin inside the text just before another.
proof fn lemma_download_marker_unbordered()
    ensures
        download_marker().len() == 26,
        download_marker()[25] != download_marker()[0],
        forall|d: int|
            1 <= d < 25 ==> #[trigger] download_marker()[d] != download_marker()[0]
                || download_marker()[d + 1] != download_marker()[1],
{
    reveal_strlit("aria-label=\"Download file\"");
    let a = download_marker();
    assert(a =~= seq![
        'a', 'r', 'i', 'a', '-', 'l', 'a', 'b', 'e', 'l', '=', '"', 'D', 'o', 'w', 'n', 'l', 'o', 'a',
        'd', ' ', 'f', 'i', 'l', 'e', '"',
    ]);
}

/// Only the first `aria-label="Download file"` of a page counts: text before
/// it that holds no such marker does not change the link found.
pub proof fn law_link_ignores_text_before_marker(prefix: Seq<char>, rest: Seq<char>)
    requires
        forall|i: int| !occurs_at(prefix, download_marker(), i),
    ensures
        normal_html_link(prefix + download_marker() + rest) == normal_html_link(
            download_marker() + rest,
        ),
{
    let a = download_marker();
    let s1 = prefix + a + rest;
    let s2 = a + rest;
    let p = prefix.len() as int;
    lemma_download_marker_unbordered();
    assert(s1.subrange(p, p + a.len()) =~= a);
    assert(s2.subrange(0, a.len() as int) =~= a);
    assert forall|i: int| 0 <= i < p implies !occurs_at(s1, a, i) by {
        if occurs_at(s1, a, i) {
            if i + a.len() <= p {
                assert(prefix.subrange(i, i + a.len()) =~= s1.subrange(i, i + a.len()));
                assert(occurs_at(prefix, a, i));
            } else {
                let d = p - i;
                let w = s1.subrange(i, i + a.len());
                assert(w == a);
                assert(w[d] == s1[p]);
                assert(s1[p] == a[0]);
                if d + 1 < a.len() {
                    assert(a[d] != a[0] || a[d + 1] != a[1]);
                    assert(w[d + 1] == s1[p + 1]);
                    assert(s1[p + 1] == a[1]);
                }
            }
        }
    }
    lemma_find_first(s1, a, p);
    lemma_find_first(s2, a, 0);
    lemma_pieces_skip(s1, a, p + a.len(), 0);
    lemma_pieces_skip(s2, a, a.len() as int, 0);
    assert(s1.skip(p + a.len()) =~= rest);
    assert(s2.skip(a.len() as int) =~= rest);
    lemma_pieces_nonempty(rest, a, 0);
    let after1 = split(s1, a);
    let after2 = split(s2, a);
    assert(after1 == seq![s1.subrange(0, p)] + split(rest, a));
    assert(after2 == seq![s2.subrange(0, 0)] + split(rest, a));
    assert(after1[1] == after2[1]);
}

/// The security token taken from a malware-warning page holds no double
/// quote, and the password no single quote.
pub proof fn law_malware_values_delimited(html: Seq<char>)
    ensures
        malware_token_and_pass(html) matches Some((token, pass)) ==> (forall|k: int|
            0 <= k < token.len() ==> token[k] != '"') && (forall|k: int|
            0 <= k < pass.len() ==> pass[k] != '\''),
{
    reveal_strlit("\"");
    reveal_strlit("'");
    assert("\""@ =~= seq!['"']);
    assert("'"@ =~= seq!['\'']);
    if malware_token_and_pass(html) is Some {
        let by_pass = split(html, pass_marker());
        let by_token = split(html, token_marker());
        lemma_first_piece_free(by_token[2], '"');
        lemma_first_piece_free(by_pass[1], '\'');
    }
}

/// The text of a literal, as characters.
fn literal(s: &str) -> (v: Vec<char>)
    ensures
        v@ == s@,
{
    chars_of(s)
}

/// Attempts to extract a download link from an HTML string.
///
/// Looks for a section of HTML between `aria-label="Download file"` and
/// `id="downloadButton"`; if found, it is trimmed, `href=` and quotes are
/// removed, and the result is returned.
pub fn try_extract_link_from_normal_html(html: &String) -> (r: Option<String>)
    ensures
        match r {
            Some(link) => normal_html_link(html@) == Some(link@),
            None => normal_html_link(html@) is None,
        },
{
    let h = chars_of(html.as_str());
    let start_marker = literal("aria-label=\"Download file\"");
    let end_marker = literal("id=\"downloadButton\"");
    let href = literal("href=");
    let quote = literal("\"");
    let empty: Vec<char> = Vec::new();
    proof {
        reveal_strlit("aria-label=\"Download file\"");
        reveal_strlit("id=\"downloadButton\"");
        reveal_strlit("href=");
        reveal_strlit("\"");
        reveal_strlit("");
        assert(empty@ =~= ""@);
    }
    match split_nth(&h, &start_marker, 1) {
        None => None,
        Some(after) => {
            proof {
                lemma_pieces_nonempty(after@, end_marker@, 0);
            }
            if split_nth(&after, &end_marker, 1).is_none() {
                return None;
            }
            match split_nth(&after, &end_marker, 0) {
                None => None,
                Some(inner) => {
                    let trimmed = trim_exec(&inner);
                    let no_href = replace_exec(&trimmed, &href, &empty);
                    let link = replace_exec(&no_href, &quote, &empty);
                    Some(string_of(&link))
                },
            }
        },
    }
}

/// Attempts to extract a security token and password from a malware-warning
/// MediaFire HTML page.
///
/// Returns `(security_token, password)`, or `None` when either pattern or its
/// delimiters are missing.
pub fn try_extract_security_token_from_malware_html(html: &String) -> (r: Option<
    (String, String),
>)
    ensures
        match r {
            Some((token, pass)) => malware_token_and_pass(html@) == Some((token@, pass@)),
            None => malware_token_and_pass(html@) is None,
        },
{
    let h = chars_of(html.as_str());
    let pass_m = literal("{pass: '");
    let apostrophe = literal("'");
    let token_m = literal("data-security-token=\"");
    let quote = literal("\"");
    proof {
        reveal_strlit("{pass: '");
        reveal_strlit("'");
        reveal_strlit("data-security-token=\"");
        reveal_strlit("\"");
    }
    match split_nth(&h, &pass_m, 1) {
        None => None,
        Some(after_pass) => {
            proof {
                lemma_pieces_nonempty(after_pass@, apostrophe@, 0);
            }
            if split_nth(&after_pass, &apostrophe, 1).is_none() {
                return None;
            }
            match split_nth(&after_pass, &apostrophe, 0) {
                None => None,
                Some(pass) => {
                    match split_nth(&h, &token_m, 2) {
                        None => None,
                        Some(after_token) => {
                            proof {
                                lemma_pieces_nonempty(after_token@, quote@, 0);
                            }
                            if split_nth(&after_token, &quote, 1).is_none() {
                                return None;
                            }
                            match split_nth(&after_token, &quote, 0) {
                                None => None,
                                Some(token) => Some((string_of(&token), string_of(&pass))),
                            }
                        },
                    }
                },
            }
        },
    }
}

/// The `ukey` value carried by a `Set-Cookie` header value, when there is one.
pub fn ukey_from_cookie(cookie: Option<String>) -> (r: Option<String>)
    ensures
        match cookie {
            Some(c) => match ukey_of_cookie(c@) {
                Some(u) => r matches Some(v) && v@ == u,
                None => r is None,
            },
            None => r is None,
        },
{
    match cookie {
        None => None,
        Some(c) => {
            let cs = chars_of(c.as_str());
            let sep = literal("; ");
            let key = literal("ukey=");
            let empty: Vec<char> = Vec::new();
            proof {
                reveal_strlit("; ");
                reveal_strlit("ukey=");
                reveal_strlit("");
                assert(empty@ =~= ""@);
                lemma_pieces_nonempty(cs@, sep@, 0);
            }
            match split_nth(&cs, &sep, 0) {
                None => None,
                Some(first) => {
                    if has_prefix_exec(&first, &key) {
                        Some(string_of(&replace_exec(&first, &key, &empty)))
                    } else {
                        None
                    }
                },
            }
        },
    }
}

/// Whether `b` is visible ASCII or a tab, the bytes that `HeaderValue::to_str`
/// accepts.
pub open spec fn is_visible_ascii(b: u8) -> bool {
    (32 <= b && b < 127) || b == 9
}

/// A header value's bytes as text, as `HeaderValue::to_str` gives it: the
/// characters they encode when every byte is visible ASCII, else `None`.
pub open spec fn header_text_of(bytes: Seq<u8>) -> Option<Seq<char>> {
    if forall|i: int| 0 <= i < bytes.len() ==> #[trigger] is_visible_ascii(bytes[i]) {
        Some(bytes.map_values(|b: u8| b as char))
    } else {
        None
    }
}

/// The `ukey` carried by the first `Set-Cookie` value of a header map, when
/// there is one and it is text.
pub open spec fn ukey_in_headers(headers: HeaderMap) -> Option<Seq<char>> {
    let values = header_values(headers);
    if values.contains_key(set_cookie_name()) && values[set_cookie_name()].len() > 0 {
        match header_text_of(values[set_cookie_name()][0]) {
            Some(text) => ukey_of_cookie(text),
            None => None,
        }
    } else {
        None
    }
}

/// A header value is text exactly when each of its bytes is a tab (9) or lies
/// in 32 to 126, so commas, semicolons and spaces are accepted; its text then
/// keeps every byte, in order, as the character it encodes.
pub proof fn law_header_text_accepts_visible_ascii(bytes: Seq<u8>)
    ensures
        (forall|i: int| 0 <= i < bytes.len() ==> #[trigger] bytes[i] == 9u8 || (32u8 <= bytes[i]
            && bytes[i] <= 126u8)) ==> header_text_of(bytes) == Some(
            bytes.map_values(|b: u8| b as char),
        ),
        (exists|i: int| 0 <= i < bytes.len() && !(#[trigger] bytes[i] == 9u8 || (32u8 <= bytes[i]
            && bytes[i] <= 126u8))) ==> header_text_of(bytes) is None,
{
    if exists|i: int| 0 <= i < bytes.len() && !(#[trigger] bytes[i] == 9u8 || (32u8 <= bytes[i]
        && bytes[i] <= 126u8)) {
        let i = choose|i: int| 0 <= i < bytes.len() && !(#[trigger] bytes[i] == 9u8 || (32u8
            <= bytes[i] && bytes[i] <= 126u8));
        assert(!is_visible_ascii(bytes[i]));
    }
}

/// A header value's bytes as text, when every byte is visible ASCII.
pub fn header_text(bytes: &Vec<u8>) -> (r: Option<String>)
    ensures
        match r {
            Some(s) => header_text_of(bytes@) == Some(s@),
            None => header_text_of(bytes@) is None,
        },
{
    let mut chars: Vec<char> = Vec::new();
    let mut k: usize = 0;
    while k < bytes.len()
        invariant
            k <= bytes.len(),
            chars@ == bytes@.subrange(0, k as int).map_values(|b: u8| b as char),
            forall|i: int| 0 <= i < k ==> #[trigger] is_visible_ascii(bytes@[i]),
        decreases bytes.len() - k,
    {
        let b: u8 = bytes[k];
        if !((32 <= b && b < 127) || b == 9) {
            assert(!is_visible_ascii(bytes@[k as int]));
            return None;
        }
        chars.push(b as char);
        k = k + 1;
        assert(chars@ =~= bytes@.subrange(0, k as int).map_values(|b: u8| b as char));
    }
    assert(bytes@.subrange(0, bytes.len() as int) =~= bytes@);
    Some(string_of(&chars))
}

/// Attempts to extract the `ukey` value from the `Set-Cookie` header.
///
/// Returns `None` when the header is missing, is not visible ASCII, or does
/// not start with a `ukey=` cookie; otherwise the value that
/// [`ukey_from_cookie`] gives for it.
pub fn extract_ukey(headers: &HeaderMap) -> (r: Option<String>)
    ensures
        match r {
            Some(u) => ukey_in_headers(*headers) == Some(u@),
            None => ukey_in_headers(*headers) is None,
        },
{
    let cookie = match set_cookie_bytes(headers) {
        Some(bytes) => header_text(&bytes),
        None => None,
    };
    ukey_from_cookie(cookie)
}

} // verus!
