use ritcher::ad::conditioning::{check_creative, check_creatives, is_hls_mime, is_progressive_mime};
use ritcher::ad::interleaver::interleave_ads;
use ritcher::ad::provider::{parse_break_seg_index, AdSegment, StaticAdProvider};
use ritcher::ad::vast_provider::CreativeRef;
use ritcher::ad::slate::SlateProvider;
use ritcher::ad::tracking::events_for_segment;
use ritcher::ad::vast::{parse_duration, select_best_media_file, MediaFile, TrackingEvent, VastAd, VastAdType, VastResponse, WrapperAd};
use ritcher::ad::vast_provider::VastAdProvider;
use ritcher::ad::vast_parse::{parse_vast_tokens, XmlToken};
use ritcher::hls::cue::AdBreak;
use ritcher::metrics::Metrics;
use ritcher::hls::model::{MediaPlaylist, MediaSegment};

fn create_test_segment(uri: &str, duration_ms: u64) -> MediaSegment {
    MediaSegment {
        uri: uri.to_string(),
        duration_ms,
        title: None,
        discontinuity: false,
        program_date_time: None,
        daterange: None,
        unknown_tags: Vec::new(),
    }
}

fn ad(uri: &str, duration_ms: u64) -> AdSegment {
    AdSegment { uri: uri.to_string(), duration_ms, tracking: None }
}

// ── interleaver ─────────────────────────────────────────────────────────

#[test]
fn interleaver_test_interleave_single_ad_break() {
    let playlist = MediaPlaylist {
        segments: vec![
            create_test_segment("seg0.ts", 10000),
            create_test_segment("seg1.ts", 10000),
            create_test_segment("seg2.ts", 10000),
            create_test_segment("seg3.ts", 10000),
            create_test_segment("seg4.ts", 10000),
        ],
        ..Default::default()
    };

    let ad_breaks = vec![AdBreak { start_index: 1, end_index: 3, duration_ms: 30000 }];
    let ad_segments = vec![vec![ad("ad1.ts", 15000), ad("ad2.ts", 15000)]];

    let result = interleave_ads(playlist, &ad_breaks, &ad_segments, "test-session", "http://localhost");

    // seg0, ad1, ad2, seg3 (forced discontinuity), seg4
    assert_eq!(result.segments.len(), 5);
    assert_eq!(result.segments[0].uri, "seg0.ts");
    assert!(result.segments[1].uri.contains("/ad/break-0-seg-0.ts"));
    assert!(result.segments[1].discontinuity);
    assert!(result.segments[2].uri.contains("/ad/break-0-seg-1.ts"));
    assert!(!result.segments[2].discontinuity);
    assert_eq!(result.segments[3].uri, "seg3.ts");
    assert!(result.segments[3].discontinuity);
    assert_eq!(result.segments[4].uri, "seg4.ts");
}

#[test]
fn interleaver_test_interleave_multiple_ad_breaks() {
    let playlist = MediaPlaylist {
        segments: vec![
            create_test_segment("seg0.ts", 10000),
            create_test_segment("seg1.ts", 10000),
            create_test_segment("seg2.ts", 10000),
            create_test_segment("seg3.ts", 10000),
            create_test_segment("seg4.ts", 10000),
            create_test_segment("seg5.ts", 10000),
        ],
        ..Default::default()
    };

    let ad_breaks = vec![
        AdBreak { start_index: 1, end_index: 2, duration_ms: 15000 },
        AdBreak { start_index: 4, end_index: 5, duration_ms: 15000 },
    ];
    let ad_segments = vec![vec![ad("ad1.ts", 15000)], vec![ad("ad2.ts", 15000)]];

    let result = interleave_ads(playlist, &ad_breaks, &ad_segments, "test-session", "http://localhost");

    // seg0, ad1, seg2, seg3, ad2, seg5
    assert_eq!(result.segments.len(), 6);
    assert_eq!(result.segments[0].uri, "seg0.ts");
    assert!(result.segments[1].discontinuity);
    assert_eq!(result.segments[2].uri, "seg2.ts");
    assert!(result.segments[2].discontinuity);
    assert_eq!(result.segments[3].uri, "seg3.ts");
    assert!(result.segments[4].discontinuity);
    assert_eq!(result.segments[5].uri, "seg5.ts");
    assert!(result.segments[5].discontinuity);
}

#[test]
fn interleaver_test_interleave_no_ad_breaks() {
    let playlist = MediaPlaylist {
        segments: vec![create_test_segment("seg0.ts", 10000), create_test_segment("seg1.ts", 10000)],
        ..Default::default()
    };

    let result = interleave_ads(playlist.clone(), &vec![], &vec![], "test-session", "http://localhost");

    assert_eq!(result.segments.len(), 2);
    assert_eq!(result.segments[0].uri, "seg0.ts");
    assert_eq!(result.segments[1].uri, "seg1.ts");
}

// ── static provider ─────────────────────────────────────────────────────

#[test]
fn test_static_ad_provider_exact_duration() {
    let provider = StaticAdProvider::new("https://ads.example.com".to_string(), 10000);
    let segments = provider.get_ad_segments(30000, "test-session");

    assert_eq!(segments.len(), 3);
    assert_eq!(segments[0].duration_ms, 10000);
    assert_eq!(segments[0].uri, "https://ads.example.com/ad-segment-0.ts");
    assert_eq!(segments[0].tracking, None);
    assert_eq!(segments[1].uri, "https://ads.example.com/ad-segment-1.ts");
    assert_eq!(segments[2].uri, "https://ads.example.com/ad-segment-2.ts");
}

#[test]
fn test_static_ad_provider_partial_duration() {
    let provider = StaticAdProvider::new("https://ads.example.com".to_string(), 10000);
    let segments = provider.get_ad_segments(25000, "test-session");
    assert_eq!(segments.len(), 3);
}

#[test]
fn test_static_ad_provider_min_one_segment() {
    let provider = StaticAdProvider::new("https://ads.example.com".to_string(), 10000);
    let segments = provider.get_ad_segments(2000, "test-session");
    assert_eq!(segments.len(), 1);
}

#[test]
fn test_static_ad_provider_zero_duration() {
    let provider = StaticAdProvider::new("https://ads.example.com".to_string(), 10000);
    let segments = provider.get_ad_segments(0, "test-session");
    assert_eq!(segments.len(), 1);
}

#[test]
fn test_parse_segment_index() {
    assert_eq!(parse_break_seg_index("break-0-seg-0.ts"), Some(0));
    assert_eq!(parse_break_seg_index("break-0-seg-3.ts"), Some(3));
    assert_eq!(parse_break_seg_index("break-1-seg-15.ts"), Some(15));
    assert_eq!(parse_break_seg_index("invalid.ts"), None);
}

#[test]
fn provider_test_resolve_segment_url() {
    let provider = StaticAdProvider::with_segment_count(
        "https://hls.src.tedm.io/content/ts_h264_480p_1s".to_string(),
        1000,
        10,
    );

    assert_eq!(
        provider.resolve_segment_url("break-0-seg-0.ts"),
        Some("https://hls.src.tedm.io/content/ts_h264_480p_1s/out_000.ts".to_string())
    );
    assert_eq!(
        provider.resolve_segment_url("break-0-seg-3.ts"),
        Some("https://hls.src.tedm.io/content/ts_h264_480p_1s/out_003.ts".to_string())
    );
    assert_eq!(
        provider.resolve_segment_url("break-1-seg-15.ts"),
        Some("https://hls.src.tedm.io/content/ts_h264_480p_1s/out_005.ts".to_string())
    );
    assert_eq!(provider.resolve_segment_url("invalid.ts"), None);
}

// ── slate provider ──────────────────────────────────────────────────────

#[test]
fn test_fill_duration_exact() {
    let provider = SlateProvider::new("https://slate.example.com".to_string(), 2000);
    let segments = provider.fill_duration(10000, "test-session");

    assert_eq!(segments.len(), 5);
    for (i, seg) in segments.iter().enumerate() {
        assert_eq!(seg.uri, format!("slate-seg-{}.ts", i));
        assert_eq!(seg.duration_ms, 2000);
    }
}

#[test]
fn test_fill_duration_partial() {
    let provider = SlateProvider::new("https://slate.example.com".to_string(), 2000);
    let segments = provider.fill_duration(7000, "test-session");
    assert_eq!(segments.len(), 4);
}

#[test]
fn test_fill_duration_minimum_one() {
    let provider = SlateProvider::new("https://slate.example.com".to_string(), 10000);
    let segments = provider.fill_duration(0, "test-session");
    assert_eq!(segments.len(), 1);
}

#[test]
fn slate_test_resolve_segment_url() {
    let provider = SlateProvider::new("https://slate.example.com/content".to_string(), 1000);

    assert_eq!(
        provider.resolve_segment_url("slate-seg-0.ts"),
        Some("https://slate.example.com/content/out_000.ts".to_string())
    );
    assert_eq!(
        provider.resolve_segment_url("slate-seg-3.ts"),
        Some("https://slate.example.com/content/out_003.ts".to_string())
    );
    assert_eq!(
        provider.resolve_segment_url("slate-seg-15.ts"),
        Some("https://slate.example.com/content/out_005.ts".to_string())
    );
}

#[test]
fn test_resolve_segment_url_invalid() {
    let provider = SlateProvider::new("https://slate.example.com".to_string(), 1000);
    assert_eq!(provider.resolve_segment_url("invalid.ts"), None);
    assert_eq!(provider.resolve_segment_url("break-0-seg-0.ts"), None);
}

#[test]
fn test_ad_provider_trait() {
    let provider = SlateProvider::new("https://slate.example.com".to_string(), 2000);
    let segments = provider.get_ad_segments(6000, "session-1");
    assert_eq!(segments.len(), 3);
    let url = provider.resolve_segment_url("slate-seg-0.ts");
    assert!(url.is_some());
}

// ── tracking ────────────────────────────────────────────────────────────

fn make_events() -> Vec<TrackingEvent> {
    vec![
        TrackingEvent { event: "start".into(), url: "http://t/start".into() },
        TrackingEvent { event: "firstQuartile".into(), url: "http://t/fq".into() },
        TrackingEvent { event: "midpoint".into(), url: "http://t/mid".into() },
        TrackingEvent { event: "thirdQuartile".into(), url: "http://t/tq".into() },
        TrackingEvent { event: "complete".into(), url: "http://t/complete".into() },
    ]
}

#[test]
fn test_start_event_on_first_segment() {
    let events = make_events();
    let result = events_for_segment(0, 4, &events);
    assert_eq!(result.len(), 1);
    assert_eq!(result[0].event, "start");
}

#[test]
fn test_first_quartile() {
    let events = make_events();
    let result = events_for_segment(1, 4, &events);
    assert!(result.iter().any(|e| e.event == "firstQuartile"));
}

#[test]
fn test_midpoint() {
    let events = make_events();
    let result = events_for_segment(2, 4, &events);
    assert!(result.iter().any(|e| e.event == "midpoint"));
}

#[test]
fn test_third_quartile() {
    let events = make_events();
    let result = events_for_segment(3, 5, &events);
    assert!(result.iter().any(|e| e.event == "thirdQuartile"));
}

#[test]
fn test_complete_on_last_segment() {
    let events = make_events();
    let result = events_for_segment(3, 4, &events);
    assert!(result.iter().any(|e| e.event == "complete"));
}

#[test]
fn test_single_segment_fires_start_and_complete() {
    let events = make_events();
    let result = events_for_segment(0, 1, &events);
    assert!(result.iter().any(|e| e.event == "start"));
    assert!(result.iter().any(|e| e.event == "complete"));
}

#[test]
fn test_no_events_for_empty_tracking() {
    let empty: Vec<TrackingEvent> = Vec::new();
    let result = events_for_segment(0, 4, &empty);
    assert!(result.is_empty());
}

#[test]
fn test_zero_total_segments() {
    let events = make_events();
    let result = events_for_segment(0, 0, &events);
    assert!(result.is_empty());
}

#[test]
fn test_two_segments_fires_all_quartiles() {
    let events = make_events();
    let seg0 = events_for_segment(0, 2, &events);
    assert!(seg0.iter().any(|e| e.event == "start"));
    assert_eq!(seg0.len(), 1);

    let seg1 = events_for_segment(1, 2, &events);
    assert!(seg1.iter().any(|e| e.event == "firstQuartile"));
    assert!(seg1.iter().any(|e| e.event == "midpoint"));
    assert!(seg1.iter().any(|e| e.event == "thirdQuartile"));
    assert!(seg1.iter().any(|e| e.event == "complete"));
}

#[test]
fn test_three_segments_fires_all_quartiles() {
    let events = make_events();
    let seg0 = events_for_segment(0, 3, &events);
    assert!(seg0.iter().any(|e| e.event == "start"));

    let seg1 = events_for_segment(1, 3, &events);
    assert!(seg1.iter().any(|e| e.event == "firstQuartile"));
    assert!(seg1.iter().any(|e| e.event == "midpoint"));

    let seg2 = events_for_segment(2, 3, &events);
    assert!(seg2.iter().any(|e| e.event == "thirdQuartile"));
    assert!(seg2.iter().any(|e| e.event == "complete"));
}

#[test]
fn test_single_segment_fires_all_events() {
    let events = make_events();
    let result = events_for_segment(0, 1, &events);
    assert!(result.iter().any(|e| e.event == "start"));
    assert!(result.iter().any(|e| e.event == "firstQuartile"));
    assert!(result.iter().any(|e| e.event == "midpoint"));
    assert!(result.iter().any(|e| e.event == "thirdQuartile"));
    assert!(result.iter().any(|e| e.event == "complete"));
    assert_eq!(result.len(), 5);
}

// quartile coverage on concrete sizes: each standard event fires exactly
// once across the segments of an ad
#[test]
fn quartile_coverage_counts() {
    let events = make_events();
    for n in 1usize..=12 {
        let mut counts = [0usize; 5];
        for i in 0..n {
            for fired in events_for_segment(i, n, &events) {
                match fired.event.as_str() {
                    "start" => counts[0] += 1,
                    "firstQuartile" => counts[1] += 1,
                    "midpoint" => counts[2] += 1,
                    "thirdQuartile" => counts[3] += 1,
                    "complete" => counts[4] += 1,
                    _ => {}
                }
            }
        }
        assert_eq!(counts, [1, 1, 1, 1, 1], "n = {}", n);
    }
}

// ── media file selection and durations ──────────────────────────────────

#[test]
fn test_select_best_media_file_prefers_hls() {
    let files = vec![
        MediaFile {
            url: "https://example.com/ad.mp4".to_string(),
            delivery: "progressive".to_string(),
            mime_type: "video/mp4".to_string(),
            width: 1280,
            height: 720,
            bitrate: Some(2000),
            codec: Some("H.264".to_string()),
        },
        MediaFile {
            url: "https://example.com/ad.m3u8".to_string(),
            delivery: "streaming".to_string(),
            mime_type: "application/x-mpegURL".to_string(),
            width: 1280,
            height: 720,
            bitrate: None,
            codec: None,
        },
    ];

    let best = select_best_media_file(&files).unwrap();
    assert_eq!(best.url, "https://example.com/ad.m3u8");
}

#[test]
fn test_select_best_media_file_fallback_mp4() {
    let files = vec![MediaFile {
        url: "https://example.com/ad.mp4".to_string(),
        delivery: "progressive".to_string(),
        mime_type: "video/mp4".to_string(),
        width: 1280,
        height: 720,
        bitrate: Some(2000),
        codec: Some("H.264".to_string()),
    }];

    let best = select_best_media_file(&files).unwrap();
    assert_eq!(best.url, "https://example.com/ad.mp4");
}

#[test]
fn test_parse_duration() {
    assert_eq!(parse_duration("00:00:15"), 15000);
    assert_eq!(parse_duration("00:00:30"), 30000);
    assert_eq!(parse_duration("00:01:00"), 60000);
    assert_eq!(parse_duration("01:00:00"), 3600000);
    assert_eq!(parse_duration("00:00:10.5"), 10500);
    assert_eq!(parse_duration("garbage"), 0);
}

// ── conditioning ────────────────────────────────────────────────────────

fn create_media_file(mime_type: &str, width: u32, height: u32) -> MediaFile {
    MediaFile {
        url: "http://example.com/ad.ts".to_string(),
        delivery: "progressive".to_string(),
        mime_type: mime_type.to_string(),
        width,
        height,
        bitrate: Some(2000),
        codec: None,
    }
}

#[test]
fn test_hls_mime_detection() {
    assert!(is_hls_mime("application/x-mpegURL"));
    assert!(is_hls_mime("application/vnd.apple.mpegurl"));
    assert!(!is_hls_mime("video/mp4"));
    assert!(!is_hls_mime("video/webm"));
}

#[test]
fn test_progressive_mime_detection() {
    assert!(is_progressive_mime("video/mp4"));
    assert!(is_progressive_mime("video/webm"));
    assert!(!is_progressive_mime("application/x-mpegURL"));
}

#[test]
fn test_check_creative_hls_no_warnings() {
    let media_file = create_media_file("application/x-mpegURL", 1920, 1080);
    assert_eq!(check_creative(&media_file, "test-session"), 0);
}

#[test]
fn test_check_creative_progressive_warns() {
    let media_file = create_media_file("video/mp4", 1920, 1080);
    assert_eq!(check_creative(&media_file, "test-session"), 1);
}

#[test]
fn test_check_creative_nonstandard_resolution() {
    let media_file = create_media_file("application/x-mpegURL", 999, 555);
    assert_eq!(check_creative(&media_file, "test-session"), 1);
}

#[test]
fn test_check_creatives_counts_warnings() {
    let hls = create_media_file("application/x-mpegURL", 1920, 1080);
    let mp4 = create_media_file("video/mp4", 1280, 720);
    let unknown = create_media_file("video/unknown", 640, 360);

    let files: Vec<&MediaFile> = vec![&hls, &mp4, &unknown];
    let count = check_creatives(&files, "test-session");

    assert_eq!(count, 2);
}

// ── VAST provider ───────────────────────────────────────────────────────

#[test]
fn test_resolve_endpoint_macros() {
    let provider = VastAdProvider::new(
        "http://ads.example.com/vast?dur=[DURATION]&cb=[CACHEBUSTING]".to_string(),
    );

    let resolved = provider.resolve_endpoint(30000, 1700000000000);
    assert!(resolved.contains("dur=30"));
    assert!(!resolved.contains("[CACHEBUSTING]"));
    assert!(!resolved.contains("[DURATION]"));
    assert!(resolved.contains("cb=1700000000000"));
}

#[test]
fn chase_collects_inline_and_respects_depth() {
    let provider = VastAdProvider::new("http://ads.example.com/vast".to_string());
    let mut chase = provider.start_chase(30000, 0);

    // a wrapper-only response re-queues one level deeper
    let wrapper_resp = VastResponse {
        version: "3.0".to_string(),
        ads: vec![VastAd {
            id: "w".to_string(),
            ad_type: VastAdType::Wrapper(WrapperAd {
                ad_tag_uri: "http://ads.example.com/hop".to_string(),
                impression_urls: vec![],
                tracking_events: vec![],
            }),
        }],
    };

    let mut hops = 0usize;
    while let Some((_url, depth)) = chase.next_request() {
        assert!(depth <= 5, "requests never exceed the depth bound");
        chase.deliver(depth, &wrapper_resp, "sess");
        hops += 1;
        assert!(hops <= 16, "chase must terminate");
    }
    // a chain deeper than the bound yields no creatives
    assert_eq!(chase.take_creatives().len(), 0);
    assert_eq!(hops, 6); // depths 0 through 5 inclusive
}

#[test]
fn vast_empty_with_slate_falls_back() {
    let slate = SlateProvider::new("https://slate.example.com".to_string(), 1000);
    let mut provider =
        VastAdProvider::new("http://ads.example.com/vast".to_string()).with_slate(slate);
    let mut metrics = Metrics::new();

    // an empty outcome (no creatives resolved) falls back to the slate
    let segments =
        provider.get_ad_segments_resolved(Some(Vec::new()), 30000, "sid", 0, &mut metrics);
    assert_eq!(segments.len(), 30);
    for (i, seg) in segments.iter().enumerate() {
        assert_eq!(seg.uri, format!("slate-seg-{}.ts", i));
    }
    assert_eq!(
        provider.resolve_segment_url("slate-seg-7.ts"),
        Some("https://slate.example.com/out_007.ts".to_string())
    );
    // the empty outcome and the slate substitution are both recorded
    assert_eq!(metrics.counter_get("vast_requests_total:empty"), 1);
    assert_eq!(metrics.counter_get("slate_fallbacks_total"), 1);
}

#[test]
fn vast_failure_without_slate_records_error() {
    let mut provider = VastAdProvider::new("http://ads.example.com/vast".to_string());
    let mut metrics = Metrics::new();
    let segments = provider.get_ad_segments_resolved(None, 30000, "sid", 0, &mut metrics);
    assert!(segments.is_empty());
    assert_eq!(metrics.counter_get("vast_requests_total:error"), 1);
    assert_eq!(metrics.counter_get("slate_fallbacks_total"), 0);
}

#[test]
fn vast_resolution_caches_creatives() {
    let mut provider = VastAdProvider::new("http://ads.example.com/vast".to_string());
    let mut metrics = Metrics::new();
    let creatives = vec![
        CreativeRef { url: "https://cdn/ad0.m3u8".to_string(), duration_ms: 15000, is_hls: true },
        CreativeRef { url: "https://cdn/ad1.mp4".to_string(), duration_ms: 10000, is_hls: false },
    ];
    let segments =
        provider.get_ad_segments_resolved(Some(creatives), 25000, "sess-9", 1000, &mut metrics);
    assert_eq!(segments.len(), 2);
    assert_eq!(segments[0].uri, "break-0-seg-0.ts");
    assert_eq!(segments[0].duration_ms, 15000);
    assert_eq!(segments[1].uri, "break-0-seg-1.ts");

    assert_eq!(provider.resolve_segment_url("break-0-seg-0.ts"), Some("https://cdn/ad0.m3u8".to_string()));
    assert_eq!(provider.resolve_segment_url("break-0-seg-1.ts"), Some("https://cdn/ad1.mp4".to_string()));
    assert_eq!(provider.resolve_segment_url("break-0-seg-2.ts"), None);

    // cache sweep keeps fresh entries and drops expired ones
    provider.cleanup_cache(1000 + 200000);
    assert!(provider.resolve_segment_url("break-0-seg-0.ts").is_some());
    provider.cleanup_cache(1000 + 400000);
    assert_eq!(provider.resolve_segment_url("break-0-seg-0.ts"), None);
    assert_eq!(metrics.counter_get("vast_requests_total:success"), 1);
}

// ── VAST token reading ──────────────────────────────────────────────────

fn start(name: &str, attrs: &[(&str, &str)]) -> XmlToken {
    XmlToken::Start {
        name: name.to_string(),
        attrs: attrs.iter().map(|(k, v)| (k.to_string(), v.to_string())).collect(),
    }
}

fn end(name: &str) -> XmlToken {
    XmlToken::End { name: name.to_string() }
}

fn text(s: &str) -> XmlToken {
    XmlToken::Text(s.to_string())
}

#[test]
fn test_parse_inline_ad() {
    let tokens = vec![
        start("VAST", &[("version", "3.0")]),
        start("Ad", &[("id", "ad-001")]),
        start("InLine", &[]),
        start("AdSystem", &[]),
        text("Test Adserver"),
        end("AdSystem"),
        start("AdTitle", &[]),
        text("Test Ad"),
        end("AdTitle"),
        start("Impression", &[]),
        text("http://example.com/impression"),
        end("Impression"),
        start("Creatives", &[]),
        start("Creative", &[("id", "creative-001")]),
        start("Linear", &[]),
        start("Duration", &[]),
        text("00:00:15"),
        end("Duration"),
        start("TrackingEvents", &[]),
        start("Tracking", &[("event", "start")]),
        text("http://example.com/start"),
        end("Tracking"),
        start("Tracking", &[("event", "complete")]),
        text("http://example.com/complete"),
        end("Tracking"),
        end("TrackingEvents"),
        start("MediaFiles", &[]),
        start(
            "MediaFile",
            &[
                ("delivery", "progressive"),
                ("type", "video/mp4"),
                ("width", "1280"),
                ("height", "720"),
                ("bitrate", "2000"),
                ("codec", "H.264"),
            ],
        ),
        text("
                https://example.com/ad.mp4
            "),
        end("MediaFile"),
        start(
            "MediaFile",
            &[
                ("delivery", "streaming"),
                ("type", "application/x-mpegURL"),
                ("width", "1280"),
                ("height", "720"),
            ],
        ),
        text("https://example.com/ad.m3u8"),
        end("MediaFile"),
        end("MediaFiles"),
        end("Linear"),
        end("Creative"),
        end("Creatives"),
        end("InLine"),
        end("Ad"),
        end("VAST"),
    ];
    let result = parse_vast_tokens(tokens);

    assert_eq!(result.version, "3.0");
    assert_eq!(result.ads.len(), 1);

    let ad = &result.ads[0];
    assert_eq!(ad.id, "ad-001");

    match &ad.ad_type {
        VastAdType::InLine(inline) => {
            assert_eq!(inline.ad_system, "Test Adserver");
            assert_eq!(inline.ad_title, "Test Ad");
            assert_eq!(inline.impression_urls.len(), 1);
            assert_eq!(inline.creatives.len(), 1);

            let creative = &inline.creatives[0];
            assert_eq!(creative.id, "creative-001");

            let linear = creative.linear.as_ref().unwrap();
            assert_eq!(linear.duration_ms, 15000);
            assert_eq!(linear.tracking_events.len(), 2);
            assert_eq!(linear.media_files.len(), 2);

            let mp4 = &linear.media_files[0];
            assert_eq!(mp4.delivery, "progressive");
            assert_eq!(mp4.mime_type, "video/mp4");
            assert_eq!(mp4.width, 1280);
            assert_eq!(mp4.height, 720);
            assert_eq!(mp4.bitrate, Some(2000));
            assert_eq!(mp4.url, "https://example.com/ad.mp4");

            let hls = &linear.media_files[1];
            assert_eq!(hls.delivery, "streaming");
            assert_eq!(hls.mime_type, "application/x-mpegURL");
        }
        _ => panic!("Expected InLine ad"),
    }
}

#[test]
fn test_parse_wrapper_ad() {
    let tokens = vec![
        start("VAST", &[("version", "3.0")]),
        start("Ad", &[("id", "wrapper-001")]),
        start("Wrapper", &[]),
        start("VASTAdTagURI", &[]),
        XmlToken::CData("http://example.com/vast-inline.xml".to_string()),
        end("VASTAdTagURI"),
        start("Impression", &[]),
        text("http://example.com/wrapper-impression"),
        end("Impression"),
        end("Wrapper"),
        end("Ad"),
        end("VAST"),
    ];
    let result = parse_vast_tokens(tokens);

    assert_eq!(result.ads.len(), 1);
    match &result.ads[0].ad_type {
        VastAdType::Wrapper(wrapper) => {
            assert_eq!(wrapper.ad_tag_uri, "http://example.com/vast-inline.xml");
            assert_eq!(wrapper.impression_urls.len(), 1);
        }
        _ => panic!("Expected Wrapper ad"),
    }
}

#[test]
fn test_parse_empty_vast() {
    let tokens = vec![start("VAST", &[("version", "3.0")]), end("VAST")];
    let result = parse_vast_tokens(tokens);
    assert_eq!(result.version, "3.0");
    assert!(result.ads.is_empty());
}
