use videowall::domain::LiveKitCredentials;

#[test]
fn rewrites_https_to_wss() {
    let c = LiveKitCredentials::from_api_response(
        "https://stream-us-central1.lumana.ai".to_string(),
        "jwt".to_string(),
    );
    assert_eq!(c.wss_url, "wss://stream-us-central1.lumana.ai");
    assert_eq!(c.jwt, "jwt");
}

#[test]
fn rewrites_http_to_ws() {
    let c = LiveKitCredentials::from_api_response(
        "http://localhost:7880".to_string(),
        "jwt".to_string(),
    );
    assert_eq!(c.wss_url, "ws://localhost:7880");
}

#[test]
fn passes_through_unknown_scheme() {
    let c = LiveKitCredentials::from_api_response(
        "wss://already.example".to_string(),
        "jwt".to_string(),
    );
    assert_eq!(c.wss_url, "wss://already.example");
}

#[test]
fn bare_schemes_become_bare_ws_schemes() {
    let c = LiveKitCredentials::from_api_response("https://".to_string(), String::new());
    assert_eq!(c.wss_url, "wss://");
    assert_eq!(c.jwt, "");
    let c = LiveKitCredentials::from_api_response("http://".to_string(), String::new());
    assert_eq!(c.wss_url, "ws://");
}

#[test]
fn scheme_match_is_case_sensitive_and_whole() {
    for url in ["HTTPS://example", "https:/example", "http:example", "", "ftp://x", "httpx://y"] {
        let c = LiveKitCredentials::from_api_response(url.to_string(), "t".to_string());
        assert_eq!(c.wss_url, url);
    }
}

#[test]
fn rewriting_twice_changes_nothing_more() {
    for url in ["https://a.example/p?q=1", "http://localhost:7880", "wss://x", "other"] {
        let once = LiveKitCredentials::from_api_response(url.to_string(), "j".to_string());
        let twice = LiveKitCredentials::from_api_response(once.wss_url.clone(), "j".to_string());
        assert_eq!(once.wss_url, twice.wss_url);
    }
}

#[test]
fn keeps_non_ascii_rest_of_url() {
    let c = LiveKitCredentials::from_api_response("https://exämple.ü/π".to_string(), "ü".to_string());
    assert_eq!(c.wss_url, "wss://exämple.ü/π");
    assert_eq!(c.jwt, "ü");
}
