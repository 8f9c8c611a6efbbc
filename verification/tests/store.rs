use url_shortener::store::UrlShortener;

fn is_code_char(c: char) -> bool {
    c.is_ascii_uppercase() || c.is_ascii_lowercase() || c.is_ascii_digit()
}

#[test]
fn shorten_then_resolve_returns_the_url() {
    let mut store = UrlShortener::new();
    let code = store.shorten(String::from("http://example.com"));
    let got = store.resolve(&code);
    assert_eq!(got, Some(&String::from("http://example.com")));
}

#[test]
fn codes_are_six_alphanumeric_chars() {
    let mut store = UrlShortener::new();
    for _ in 0..20 {
        let code = store.shorten(String::from("http://example.com/x"));
        assert_eq!(code.chars().count(), 6);
        assert!(code.chars().all(is_code_char));
    }
}

#[test]
fn consecutive_codes_are_distinct() {
    let mut store = UrlShortener::new();
    let c1 = store.shorten(String::from("http://one.example"));
    let c2 = store.shorten(String::from("http://two.example"));
    assert_ne!(c1, c2);
}

#[test]
fn forced_collision_does_not_overwrite() {
    let mut store = UrlShortener::new();
    let fresh = store.insert_alias(String::from("abc123"), String::from("http://first.example"));
    assert!(fresh);
    let again = store.insert_alias(String::from("abc123"), String::from("http://second.example"));
    assert!(!again);
    assert_eq!(store.resolve("abc123"), Some(&String::from("http://first.example")));
}

#[test]
fn resolve_of_unknown_code_is_none() {
    let store = UrlShortener::new();
    assert_eq!(store.resolve("zzzzzz"), None);
    assert_eq!(store.resolve(""), None);
}

#[test]
fn resolve_of_other_codes_unchanged_by_shorten() {
    let mut store = UrlShortener::new();
    let fresh = store.insert_alias(String::from("AAAAAA"), String::from("http://kept.example"));
    assert!(fresh);
    let code = store.shorten(String::from("http://new.example"));
    assert_ne!(code, "AAAAAA");
    assert_eq!(store.resolve("AAAAAA"), Some(&String::from("http://kept.example")));
}
