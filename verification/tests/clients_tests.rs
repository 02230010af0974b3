use feed_enricher::clients::{
    build_basic_auth, build_bearer_auth, build_run_url, build_update_url, SUMMARY_MAX_LENGTH,
};

#[test]
fn basic_auth_encodes_credentials() {
    let auth = build_basic_auth(&"user".to_string(), &"pass".to_string());
    assert_eq!(auth, "Basic dXNlcjpwYXNz");
}

#[test]
fn basic_auth_pads_short_input() {
    let auth = build_basic_auth(&"a".to_string(), &"b".to_string());
    assert_eq!(auth, "Basic YTpi");
    let empty = build_basic_auth(&"".to_string(), &"".to_string());
    assert_eq!(empty, "Basic Og==");
}

#[test]
fn bearer_auth_prefixes_token() {
    let auth = build_bearer_auth(&"tok-123".to_string());
    assert_eq!(auth, "Bearer tok-123");
}

#[test]
fn update_url_addresses_the_entry() {
    let url = build_update_url(&"https://store.example".to_string(), 42);
    assert_eq!(url, "https://store.example/v1/entries/42");
}

#[test]
fn run_url_addresses_the_model() {
    let url = build_run_url(&"https://ai.example".to_string(), &"m/summarizer".to_string());
    assert_eq!(url, "https://ai.example/run/m/summarizer");
}

#[test]
fn summary_length_limit_is_fixed() {
    assert_eq!(SUMMARY_MAX_LENGTH, 512);
}
