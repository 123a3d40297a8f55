use mediafire_downloader::utils::{
    extract_ukey, header_text, try_extract_link_from_normal_html,
    try_extract_security_token_from_malware_html, ukey_from_cookie,
};
use reqwest::header::{HeaderMap, HeaderValue, SET_COOKIE};

#[test]
fn link_from_normal_page() {
    let html = "<div><a class=\"input popsok\" aria-label=\"Download file\"\n   href=\"https://download1.mediafire.com/abc/file.zip\" id=\"downloadButton\">Download</a></div>".to_string();
    assert_eq!(
        try_extract_link_from_normal_html(&html),
        Some("https://download1.mediafire.com/abc/file.zip".to_string())
    );
}

#[test]
fn link_missing_marker() {
    let html = "<html><body>nothing to see</body></html>".to_string();
    assert_eq!(try_extract_link_from_normal_html(&html), None);
}

#[test]
fn link_without_closing_marker_is_none() {
    let html = "x aria-label=\"Download file\" href=\"u\"  ".to_string();
    assert_eq!(try_extract_link_from_normal_html(&html), None);
}

#[test]
fn link_ignores_text_before_first_marker() {
    let tail = "aria-label=\"Download file\" href=\"v\" id=\"downloadButton\"";
    assert_eq!(
        try_extract_link_from_normal_html(&format!("<p>aria-label=\"Download</p>{}", tail)),
        try_extract_link_from_normal_html(&tail.to_string())
    );
    assert_eq!(try_extract_link_from_normal_html(&tail.to_string()), Some("v".to_string()));
}

#[test]
fn link_uses_first_marker_only() {
    let html = "aria-label=\"Download file\"A\"B id=\"downloadButton\" aria-label=\"Download file\"C".to_string();
    assert_eq!(try_extract_link_from_normal_html(&html), Some("AB".to_string()));
}

#[test]
fn link_trims_unicode_white_space() {
    let html = "aria-label=\"Download file\"\u{3000}\t href=link\u{a0} id=\"downloadButton\"".to_string();
    assert_eq!(try_extract_link_from_normal_html(&html), Some("link".to_string()));
}

#[test]
fn token_and_pass_from_malware_page() {
    let html = "<input data-security-token=\"first\"> <script>x({pass: 'secret'});</script> <form data-security-token=\"second\" data-security-token=\"third\">".to_string();
    assert_eq!(
        try_extract_security_token_from_malware_html(&html),
        Some(("second".to_string(), "secret".to_string()))
    );
}

#[test]
fn token_needs_two_token_attributes() {
    let html = "{pass: 'p'} data-security-token=\"only\"".to_string();
    assert_eq!(try_extract_security_token_from_malware_html(&html), None);
}

#[test]
fn token_needs_password() {
    let html = "data-security-token=\"a\" data-security-token=\"b\"".to_string();
    assert_eq!(try_extract_security_token_from_malware_html(&html), None);
}

#[test]
fn token_unterminated_values_are_none() {
    let html = "{pass: 'pw' data-security-token=\"a\" data-security-token=\"b".to_string();
    assert_eq!(try_extract_security_token_from_malware_html(&html), None);
    let html = "{pass: 'pw data-security-token=\"a\" data-security-token=\"b\"".to_string();
    assert_eq!(try_extract_security_token_from_malware_html(&html), None);
}

#[test]
fn ukey_from_cookie_value() {
    assert_eq!(
        ukey_from_cookie(Some("ukey=abc123; path=/; domain=.mediafire.com".to_string())),
        Some("abc123".to_string())
    );
    assert_eq!(ukey_from_cookie(Some("other=1".to_string())), None);
    assert_eq!(ukey_from_cookie(Some("session=xyz; path=/".to_string())), None);
    assert_eq!(ukey_from_cookie(Some("ukey=".to_string())), Some(String::new()));
    assert_eq!(ukey_from_cookie(None), None);
}

#[test]
fn ukey_from_headers() {
    let mut headers = HeaderMap::new();
    assert_eq!(extract_ukey(&headers), None);
    headers.insert(SET_COOKIE, HeaderValue::from_static("ukey=k9; path=/"));
    assert_eq!(extract_ukey(&headers), Some("k9".to_string()));
}

#[test]
fn ukey_from_non_text_header() {
    let mut headers = HeaderMap::new();
    headers.insert(SET_COOKIE, HeaderValue::from_bytes(b"ukey=\xff").unwrap());
    assert_eq!(extract_ukey(&headers), None);
}

#[test]
fn ukey_from_first_of_several_cookies() {
    let mut headers = HeaderMap::new();
    headers.append(SET_COOKIE, HeaderValue::from_static("ukey=first; path=/"));
    headers.append(SET_COOKIE, HeaderValue::from_static("ukey=second; path=/"));
    assert_eq!(extract_ukey(&headers), Some("first".to_string()));
}

#[test]
fn header_text_accepts_visible_ascii_and_tab() {
    assert_eq!(header_text(&b"a b\tc~".to_vec()), Some("a b\tc~".to_string()));
    assert_eq!(header_text(&Vec::new()), Some(String::new()));
    assert_eq!(header_text(&vec![0x7f]), None);
    assert_eq!(header_text(&vec![b'a', 0x1f]), None);
    assert_eq!(header_text(&vec![0xc3, 0xa9]), None);
}

#[test]
fn ukey_missing_from_other_cookie() {
    let mut headers = HeaderMap::new();
    headers.insert(SET_COOKIE, HeaderValue::from_static("session=xyz; path=/"));
    assert_eq!(extract_ukey(&headers), None);
}
