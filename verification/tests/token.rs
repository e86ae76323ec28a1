use videowall::domain::text::{is_white_space_char, trim_str};
use videowall::domain::{BearerToken, RequestBody};

#[test]
fn trims_surrounding_whitespace() {
    assert_eq!(BearerToken::new("  abc.def \n".to_string()).as_str(), "abc.def");
}

#[test]
fn strips_bearer_prefix_and_whitespace_after_it() {
    assert_eq!(BearerToken::new("Bearer abc".to_string()).as_str(), "abc");
    assert_eq!(BearerToken::new(" \tBearer    abc  ".to_string()).as_str(), "abc");
}

#[test]
fn keeps_token_without_prefix() {
    assert_eq!(BearerToken::new("abc".to_string()).as_str(), "abc");
    assert_eq!(BearerToken::new("bearer abc".to_string()).as_str(), "bearer abc");
    assert_eq!(BearerToken::new("Bearerabc".to_string()).as_str(), "Bearerabc");
}

#[test]
fn strips_only_one_prefix() {
    assert_eq!(BearerToken::new("Bearer Bearer abc".to_string()).as_str(), "Bearer abc");
}

#[test]
fn prefix_without_token_is_kept_trimmed() {
    assert_eq!(BearerToken::new("Bearer ".to_string()).as_str(), "Bearer");
    assert_eq!(BearerToken::new("Bearer  \t".to_string()).as_str(), "Bearer");
    assert_eq!(BearerToken::new("   ".to_string()).as_str(), "");
    assert_eq!(BearerToken::new(String::new()).as_str(), "");
}

#[test]
fn unicode_whitespace_is_trimmed() {
    let raw = "\u{3000}\u{a0}Bearer\u{2003}tok\u{2028}".to_string();
    // the scheme must be followed by a plain space to be recognised
    assert_eq!(BearerToken::new(raw).as_str(), "Bearer\u{2003}tok");
    let raw = "\u{85}Bearer \u{205f}tøk\u{1680}".to_string();
    assert_eq!(BearerToken::new(raw).as_str(), "tøk");
}

#[test]
fn matches_std_cleaning() {
    let samples = [
        "", " ", "x", " Bearer x ", "Bearer\tx", "Bearer  y z ", "\n\rBearer \u{2009}q\u{200a}",
        "Bearer", "Bearer Bearer ", "ÄBearer x", " Bearer é ",
    ];
    for s in samples {
        let trimmed = s.trim();
        let expected = trimmed.strip_prefix("Bearer ").map(str::trim).unwrap_or(trimmed);
        assert_eq!(BearerToken::new(s.to_string()).as_str(), expected);
    }
}

#[test]
fn whitespace_agrees_with_std_for_every_char() {
    for u in 0u32..=0x10FFFF {
        if let Some(c) = char::from_u32(u) {
            assert_eq!(is_white_space_char(c), c.is_whitespace(), "U+{u:04X}");
        }
    }
}

#[test]
fn trim_agrees_with_std() {
    for s in ["", "  ", " a ", "a", "\u{3000}a b\u{3000}", "\t\n", "ab\u{200b}"] {
        assert_eq!(trim_str(s), s.trim());
    }
}

#[test]
fn body_holds_utf8_bytes_of_text() {
    let b = RequestBody::from_string("{\"a\":\"é\"}".to_string());
    assert_eq!(b.as_bytes(), "{\"a\":\"é\"}".as_bytes());
    assert_eq!(RequestBody::from_string(String::new()).as_bytes(), b"");
    assert_eq!(RequestBody::from_string("π€😀".to_string()).as_bytes(), &[0xCF, 0x80, 0xE2, 0x82, 0xAC, 0xF0, 0x9F, 0x98, 0x80]);
}
