use pastebin::secure::is_secure_transport;

#[test]
fn missing_headers_are_insecure() {
    assert!(!is_secure_transport(None, None));
    assert!(!is_secure_transport(Some("example.com"), None));
    assert!(!is_secure_transport(None, Some("https://example.com")));
}

#[test]
fn https_origin_matching_host_is_secure() {
    assert!(is_secure_transport(Some("example.com"), Some("https://example.com")));
    assert!(is_secure_transport(Some("example.com"), Some("https://example.com/path")));
    assert!(is_secure_transport(Some("example.com:443"), Some("https://example.com:443")));
}

#[test]
fn non_https_origin_is_insecure() {
    assert!(!is_secure_transport(Some("example.com"), Some("http://example.com")));
    assert!(!is_secure_transport(Some("example.com"), Some("example.com")));
    assert!(!is_secure_transport(Some("example.com"), Some("HTTPS://example.com")));
}

#[test]
fn mismatched_host_is_insecure() {
    assert!(!is_secure_transport(Some("example.com"), Some("https://evil.com")));
    assert!(!is_secure_transport(Some("example.com"), Some("https://examplX.com")));
    assert!(!is_secure_transport(Some("example.com"), Some("https://example.co")));
}

#[test]
fn host_prefix_of_origin_remainder_counts() {
    // The heuristic is a prefix check, not full equality.
    assert!(is_secure_transport(Some("example.com"), Some("https://example.com.evil.com")));
}
