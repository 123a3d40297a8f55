use mediafire_downloader::text::{
    chars_of, find_from_exec, push_decimal, replace_exec, split_nth, string_of, trim_exec,
};

fn s(v: &Vec<char>) -> String {
    string_of(v)
}

#[test]
fn split_pieces_like_std() {
    let text = chars_of("a--b----c");
    let sep = chars_of("--");
    let expected: Vec<&str> = "a--b----c".split("--").collect();
    for (n, piece) in expected.iter().enumerate() {
        assert_eq!(split_nth(&text, &sep, n).map(|v| s(&v)), Some(piece.to_string()));
    }
    assert_eq!(split_nth(&text, &sep, expected.len()), None);
}

#[test]
fn split_overlapping_separator() {
    let text = chars_of("aaaa");
    let sep = chars_of("aa");
    assert_eq!(split_nth(&text, &sep, 0).map(|v| s(&v)), Some(String::new()));
    assert_eq!(split_nth(&text, &sep, 2).map(|v| s(&v)), Some(String::new()));
    assert_eq!(split_nth(&text, &sep, 3), None);
}

#[test]
fn replace_like_std() {
    let cases = [("aaa", "aa", "b"), ("href=x href=", "href=", ""), ("\"q\"", "\"", ""), ("abc", "z", "y")];
    for (t, p, r) in cases {
        let out = replace_exec(&chars_of(t), &chars_of(p), &chars_of(r));
        assert_eq!(s(&out), t.replace(p, r));
    }
}

#[test]
fn trim_like_std() {
    for t in ["  x y  ", "\u{2003}\u{85}z\u{2029}", "", "   ", "q"] {
        assert_eq!(s(&trim_exec(&chars_of(t))), t.trim());
    }
}

#[test]
fn find_leftmost() {
    let text = chars_of("abcabc");
    assert_eq!(find_from_exec(&text, &chars_of("bc"), 0), Some(1));
    assert_eq!(find_from_exec(&text, &chars_of("bc"), 2), Some(4));
    assert_eq!(find_from_exec(&text, &chars_of("bc"), 5), None);
}

#[test]
fn decimal_rendering() {
    for n in [0u64, 7, 10, 1234567890, u64::MAX] {
        let mut v = Vec::new();
        push_decimal(&mut v, n);
        assert_eq!(s(&v), n.to_string());
    }
}
