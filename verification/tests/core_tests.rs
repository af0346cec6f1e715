use ritcher::session::Session;
use ritcher::url_validation::validate_origin_url;

// ── IPv4 private ranges ─────────────────────────────────────────────────

#[test]
fn test_rejects_localhost_127() {
    assert!(validate_origin_url("http://127.0.0.1/stream").is_err());
    assert!(validate_origin_url("http://127.0.0.99/stream").is_err());
    assert!(validate_origin_url("http://127.255.255.255/stream").is_err());
}

#[test]
fn test_rejects_rfc1918_10() {
    assert!(validate_origin_url("http://10.0.0.1/stream").is_err());
    assert!(validate_origin_url("http://10.255.255.255/stream").is_err());
}

#[test]
fn test_rejects_rfc1918_172() {
    assert!(validate_origin_url("http://172.16.0.1/stream").is_err());
    assert!(validate_origin_url("http://172.31.255.255/stream").is_err());
}

#[test]
fn test_rejects_rfc1918_192_168() {
    assert!(validate_origin_url("http://192.168.0.1/stream").is_err());
    assert!(validate_origin_url("http://192.168.255.255/stream").is_err());
}

#[test]
fn test_rejects_link_local_metadata() {
    assert!(validate_origin_url("http://169.254.169.254/latest/meta-data/").is_err());
    assert!(validate_origin_url("http://169.254.0.1/stream").is_err());
}

#[test]
fn test_rejects_zero_network() {
    assert!(validate_origin_url("http://0.0.0.0/stream").is_err());
    assert!(validate_origin_url("http://0.1.2.3/stream").is_err());
}

// ── IPv6 private ranges ─────────────────────────────────────────────────

#[test]
fn test_rejects_ipv6_loopback() {
    assert!(validate_origin_url("http://[::1]/stream").is_err());
}

#[test]
fn test_rejects_ipv6_link_local() {
    assert!(validate_origin_url("http://[fe80::1]/stream").is_err());
    assert!(validate_origin_url("http://[fe80::abcd:1234]/stream").is_err());
}

#[test]
fn test_rejects_ipv6_unique_local() {
    assert!(validate_origin_url("http://[fc00::1]/stream").is_err());
    assert!(validate_origin_url("http://[fd00::1]/stream").is_err());
    assert!(validate_origin_url("http://[fdff:ffff::1]/stream").is_err());
}

// ── public addresses allowed ────────────────────────────────────────────

#[test]
fn test_allows_public_ipv4() {
    assert!(validate_origin_url("http://1.2.3.4/stream").is_ok());
    assert!(validate_origin_url("https://8.8.8.8/dns").is_ok());
    assert!(validate_origin_url("https://93.184.216.34/stream").is_ok());
}

#[test]
fn test_allows_public_hostname() {
    assert!(validate_origin_url("https://cdn.example.com/stream.m3u8").is_ok());
    assert!(validate_origin_url("http://live.broadcaster.com/playlist.m3u8").is_ok());
}

// ── scheme validation ───────────────────────────────────────────────────

#[test]
fn test_rejects_ftp_scheme() {
    assert!(validate_origin_url("ftp://cdn.example.com/file.ts").is_err());
}

#[test]
fn test_rejects_file_scheme() {
    assert!(validate_origin_url("file:///etc/passwd").is_err());
}

#[test]
fn test_rejects_gopher_scheme() {
    assert!(validate_origin_url("gopher://cdn.example.com/stream").is_err());
}

#[test]
fn test_rejects_no_scheme() {
    assert!(validate_origin_url("cdn.example.com/stream").is_err());
}

// ── malformed / edge cases ──────────────────────────────────────────────

#[test]
fn test_rejects_empty_url() {
    assert!(validate_origin_url("").is_err());
}

#[test]
fn test_rejects_garbage() {
    assert!(validate_origin_url("not-a-url").is_err());
    assert!(validate_origin_url("://missing-scheme").is_err());
}

// ── range boundaries ────────────────────────────────────────────────────

#[test]
fn test_boundary_172_15_not_blocked() {
    assert!(validate_origin_url("http://172.15.255.255/stream").is_ok());
}

#[test]
fn test_boundary_172_32_not_blocked() {
    assert!(validate_origin_url("http://172.32.0.0/stream").is_ok());
}

#[test]
fn test_allows_https_with_path_and_query() {
    assert!(validate_origin_url("https://cdn.example.com/live/stream.m3u8?token=abc").is_ok());
}

// ── CGNAT ───────────────────────────────────────────────────────────────

#[test]
fn test_rejects_cgnat_100_64() {
    assert!(validate_origin_url("http://100.64.0.1/stream").is_err());
    assert!(validate_origin_url("http://100.127.255.255/stream").is_err());
}

#[test]
fn test_boundary_cgnat_100_63_allowed() {
    assert!(validate_origin_url("http://100.63.255.255/stream").is_ok());
}

#[test]
fn test_boundary_cgnat_100_128_allowed() {
    assert!(validate_origin_url("http://100.128.0.0/stream").is_ok());
}

// ── IETF / TEST-NET / benchmarking / class E ────────────────────────────

#[test]
fn test_rejects_ietf_192_0_0() {
    assert!(validate_origin_url("http://192.0.0.1/stream").is_err());
}

#[test]
fn test_rejects_test_net_1() {
    assert!(validate_origin_url("http://192.0.2.1/stream").is_err());
}

#[test]
fn test_rejects_test_net_2() {
    assert!(validate_origin_url("http://198.51.100.1/stream").is_err());
}

#[test]
fn test_rejects_test_net_3() {
    assert!(validate_origin_url("http://203.0.113.1/stream").is_err());
}

#[test]
fn test_rejects_benchmarking_198_18() {
    assert!(validate_origin_url("http://198.18.0.1/stream").is_err());
    assert!(validate_origin_url("http://198.19.255.255/stream").is_err());
}

#[test]
fn test_rejects_class_e_240() {
    assert!(validate_origin_url("http://240.0.0.1/stream").is_err());
    assert!(validate_origin_url("http://255.255.255.255/stream").is_err());
}

// ── IPv4-in-IPv6 bypass vectors ─────────────────────────────────────────

#[test]
fn test_rejects_ipv4_mapped_loopback() {
    assert!(validate_origin_url("http://[::ffff:127.0.0.1]/stream").is_err());
}

#[test]
fn test_rejects_ipv4_mapped_metadata() {
    assert!(validate_origin_url("http://[::ffff:169.254.169.254]/stream").is_err());
}

#[test]
fn test_rejects_ipv4_mapped_private() {
    assert!(validate_origin_url("http://[::ffff:10.0.0.1]/stream").is_err());
    assert!(validate_origin_url("http://[::ffff:192.168.1.1]/stream").is_err());
}

#[test]
fn test_allows_ipv4_mapped_public() {
    assert!(validate_origin_url("http://[::ffff:8.8.8.8]/stream").is_ok());
}

#[test]
fn test_rejects_nat64_private() {
    assert!(validate_origin_url("http://[64:ff9b::10.0.0.1]/stream").is_err());
}

// ── IPv6 unspecified and documentation ──────────────────────────────────

#[test]
fn test_rejects_ipv6_unspecified() {
    assert!(validate_origin_url("http://[::]/stream").is_err());
}

#[test]
fn test_rejects_ipv6_documentation() {
    assert!(validate_origin_url("http://[2001:db8::1]/stream").is_err());
}

// ── generic error message (no address leak) ─────────────────────────────

#[test]
fn test_error_message_does_not_leak_ip() {
    let err = validate_origin_url("http://127.0.0.1/stream").unwrap_err();
    let msg = err.message();
    assert!(!msg.contains("127.0.0.1"), "Error message should not contain the blocked IP, got: {msg}");
    assert!(msg.contains("not allowed"), "Error should contain generic message, got: {msg}");
}

// ── sessions ────────────────────────────────────────────────────────────

use ritcher::session::SessionManager;

#[test]
fn test_session_creation() {
    let mut manager = SessionManager::new_memory(300_000);
    let session = manager.get_or_create("test123".to_string(), "https://example.com".to_string(), 1000);

    assert_eq!(session.session_id, "test123");
    assert_eq!(session.origin_url, "https://example.com");
    assert_eq!(manager.session_count(), 1);
}

#[test]
fn test_session_touch() {
    let mut manager = SessionManager::new_memory(300_000);
    let session = manager.get_or_create("test456".to_string(), "https://example.com".to_string(), 1000);

    let initial_time = session.last_accessed_ms;
    manager.touch("test456", 1010);

    let updated_session = manager.get("test456", 1020).unwrap();
    assert!(updated_session.last_accessed_ms > initial_time);
}

#[test]
fn test_session_removal() {
    let mut manager = SessionManager::new_memory(300_000);
    manager.get_or_create("test789".to_string(), "https://example.com".to_string(), 1000);

    assert_eq!(manager.session_count(), 1);
    manager.remove("test789");
    assert_eq!(manager.session_count(), 0);
}

#[test]
fn session_expires_after_ttl() {
    let mut manager = SessionManager::new_memory(300_000);
    manager.get_or_create("ttl-test".to_string(), "https://example.com".to_string(), 1000);

    // within the TTL the session is visible
    assert!(manager.get("ttl-test", 1000 + 299_999).is_some());
    // once the TTL has fully elapsed it reads as absent
    assert!(manager.get("ttl-test", 1000 + 300_000).is_none());
    // and the sweep removes it
    manager.cleanup_expired(1000 + 300_000);
    assert_eq!(manager.session_count(), 0);
}

#[test]
fn session_json_encoding() {
    let s = Session {
        session_id: "abc".to_string(),
        origin_url: "https://o.example.com/x".to_string(),
        created_at_ms: 12_000,
        last_accessed_ms: 34_000,
    };
    assert_eq!(
        s.to_json(),
        "{\"session_id\":\"abc\",\"origin_url\":\"https://o.example.com/x\",\"created_at\":12,\"last_accessed\":34}"
    );
    assert_eq!(Session::remote_key("abc"), "ritcher:session:abc");
}

// ── configuration ───────────────────────────────────────────────────────

use ritcher::config::{AdProviderType, Config, SessionStoreType, StitchingMode};

fn vars(pairs: &[(&str, &str)]) -> Vec<(String, String)> {
    pairs.iter().map(|(k, v)| (k.to_string(), v.to_string())).collect()
}

#[test]
fn config_dev_defaults() {
    let c = Config::from_vars(&vars(&[("DEV_MODE", "true")])).unwrap();
    assert_eq!(c.port, 3000);
    assert_eq!(c.base_url, "http://localhost:3000");
    assert_eq!(c.origin_url, "https://example.com");
    assert!(c.is_dev);
    assert_eq!(c.stitching_mode, StitchingMode::Ssai);
    assert_eq!(c.ad_provider_type, AdProviderType::Static);
    assert_eq!(c.ad_segment_duration_ms, 1000);
    assert_eq!(c.slate_segment_duration_ms, 1000);
    assert_eq!(c.session_store, SessionStoreType::Memory);
    assert_eq!(c.session_ttl_secs, 300);
}

#[test]
fn config_prod_requires_port() {
    assert!(Config::from_vars(&vars(&[("BASE_URL", "http://b"), ("ORIGIN_URL", "http://o")])).is_err());
}

#[test]
fn config_explicit_values() {
    let c = Config::from_vars(&vars(&[
        ("PORT", "8080"),
        ("BASE_URL", "http://stitcher.example.com"),
        ("ORIGIN_URL", "http://origin.example.com"),
        ("STITCHING_MODE", "sgai"),
        ("AD_PROVIDER_TYPE", "vast"),
        ("VAST_ENDPOINT", "http://ads/vast"),
        ("AD_SEGMENT_DURATION", "2.5"),
        ("SESSION_STORE", "remote"),
        ("SESSION_TTL_SECS", "600"),
    ]))
    .unwrap();
    assert_eq!(c.port, 8080);
    assert_eq!(c.stitching_mode, StitchingMode::Sgai);
    assert_eq!(c.ad_provider_type, AdProviderType::Vast);
    assert_eq!(c.vast_endpoint, Some("http://ads/vast".to_string()));
    assert_eq!(c.ad_segment_duration_ms, 2500);
    assert_eq!(c.session_store, SessionStoreType::Remote);
    assert_eq!(c.session_ttl_secs, 600);
}

#[test]
fn config_auto_detects_vast() {
    let c = Config::from_vars(&vars(&[("DEV_MODE", "true"), ("VAST_ENDPOINT", "http://ads/vast")]))
        .unwrap();
    assert_eq!(c.ad_provider_type, AdProviderType::Vast);
}

// ── errors ──────────────────────────────────────────────────────────────

use ritcher::errors::RitcherError;

#[test]
fn error_status_mapping() {
    assert_eq!(RitcherError::OriginFetchError("x".to_string()).http_status(), 502);
    assert_eq!(RitcherError::PlaylistParseError("x".to_string()).http_status(), 422);
    assert_eq!(RitcherError::MpdParseError("x".to_string()).http_status(), 422);
    assert_eq!(RitcherError::PlaylistModifyError("x".to_string()).http_status(), 500);
    assert_eq!(RitcherError::InvalidSessionId("x".to_string()).http_status(), 400);
    assert_eq!(RitcherError::ConfigError("x".to_string()).http_status(), 500);
    assert_eq!(RitcherError::ConversionError("x".to_string()).http_status(), 500);
    assert_eq!(RitcherError::InvalidOrigin("x".to_string()).http_status(), 400);
    assert_eq!(RitcherError::InternalError("x".to_string()).http_status(), 500);
}

#[test]
fn error_message_carries_detail() {
    let e = RitcherError::PlaylistParseError("bad input".to_string());
    assert_eq!(e.message(), "Failed to parse HLS playlist: bad input");
}

// ── metrics ─────────────────────────────────────────────────────────────

use ritcher::metrics::{record_request, record_slate_fallback, set_active_sessions, Metrics};

#[test]
fn metrics_counters_accumulate() {
    let mut m = Metrics::new();
    record_request(&mut m, "playlist", 200);
    record_request(&mut m, "playlist", 200);
    record_request(&mut m, "playlist", 502);
    record_slate_fallback(&mut m);
    set_active_sessions(&mut m, 7);

    assert_eq!(m.counter_get("requests_total:playlist:200"), 2);
    assert_eq!(m.counter_get("requests_total:playlist:502"), 1);
    assert_eq!(m.counter_get("slate_fallbacks_total"), 1);
    assert_eq!(m.counter_get("never_recorded"), 0);
    assert_eq!(m.active_sessions(), 7);
}
