use ritcher::ad::provider::{AdCreative, StaticAdProvider};
use ritcher::config::StitchingMode;
use ritcher::hls::codec::serialize_playlist;
use ritcher::hls::cue::detect_ad_breaks;
use ritcher::hls::model::{ExtTag, MediaPlaylist, MediaSegment, Playlist};
use ritcher::pipeline::{
    asset_list_json, content_type_or_default, fetch_plan, next_retry_delay, parse_dur_param,
    parse_track, process_playlist, segment_source_url, HealthResponse, Track,
};

fn seg(uri: &str) -> MediaSegment {
    MediaSegment {
        uri: uri.to_string(),
        duration_ms: 10000,
        title: None,
        discontinuity: false,
        program_date_time: None,
        daterange: None,
        unknown_tags: Vec::new(),
    }
}

fn seg_with_tag(uri: &str, tag: &str, rest: Option<&str>) -> MediaSegment {
    MediaSegment {
        unknown_tags: vec![ExtTag { tag: tag.to_string(), rest: rest.map(|s| s.to_string()) }],
        ..seg(uri)
    }
}

/// The demo playlist shape: eleven segments with a thirty-second break
/// signalled over segments five to seven.
fn demo_playlist() -> MediaPlaylist {
    let mut segments = Vec::new();
    for i in 0..5 {
        segments.push(seg(&format!("seg{}.ts", i)));
    }
    segments.push(seg_with_tag("seg5.ts", "X-CUE-OUT", Some("30")));
    segments.push(seg_with_tag("seg6.ts", "X-CUE-OUT-CONT", Some("10/30")));
    segments.push(seg_with_tag("seg7.ts", "X-CUE-OUT-CONT", Some("20/30")));
    let mut seg8 = seg("seg8.ts");
    seg8.unknown_tags.push(ExtTag { tag: "X-CUE-IN".to_string(), rest: None });
    segments.push(seg8);
    segments.push(seg("seg9.ts"));
    segments.push(seg("seg10.ts"));
    MediaPlaylist {
        version: Some(3),
        target_duration_ms: 10000,
        end_list: true,
        segments,
        ..Default::default()
    }
}

#[test]
fn ssai_pipeline_replaces_break_with_ads() {
    let playlist = demo_playlist();
    let provider = StaticAdProvider::new("https://ads.example.com".to_string(), 1000);
    let breaks = detect_ad_breaks(&playlist);
    assert_eq!(breaks.len(), 1);
    assert_eq!(breaks[0].start_index, 5);
    assert_eq!(breaks[0].end_index, 8);

    let ads: Vec<_> = breaks.iter().map(|b| provider.get_ad_segments(b.duration_ms, "s")).collect();
    assert_eq!(ads[0].len(), 30);

    let out = process_playlist(
        Playlist::MediaPlaylist(playlist),
        "s",
        "http://stitcher",
        "http://origin",
        &ads,
        Track::Video,
        StitchingMode::Ssai,
    )
    .unwrap();

    let body = serialize_playlist(out).unwrap();
    assert!(body.contains("#EXTM3U"));
    // exactly one ad run of thirty segments under the opaque prefix
    assert_eq!(body.matches("/stitch/s/ad/break-0-seg-").count(), 30);
    assert!(body.contains("#EXT-X-DISCONTINUITY"));
    // the original window segments are gone
    assert!(!body.contains("seg5.ts"));
    assert!(!body.contains("seg6.ts"));
    assert!(!body.contains("seg7.ts"));
    // the post-break segment survives, proxied
    assert!(body.contains("seg8.ts"));
}

#[test]
fn sgai_pipeline_injects_interstitial() {
    let playlist = demo_playlist();
    let out = process_playlist(
        Playlist::MediaPlaylist(playlist),
        "s",
        "http://stitcher",
        "http://origin",
        &Vec::new(),
        Track::Video,
        StitchingMode::Sgai,
    )
    .unwrap();

    let body = serialize_playlist(out).unwrap();
    assert!(body.contains("EXT-X-DATERANGE"));
    assert!(body.contains("CLASS=\"com.apple.hls.interstitial\""));
    assert!(body.contains("DURATION=30"));
    assert!(body.contains("/stitch/s/asset-list/0?dur=30"));
    assert!(!body.contains("EXT-X-DISCONTINUITY"));
    assert!(!body.contains("CUE-OUT"));
    assert!(!body.contains("CUE-IN"));
}

#[test]
fn subtitles_track_skips_ad_insertion() {
    let playlist = demo_playlist();
    let out = process_playlist(
        Playlist::MediaPlaylist(playlist),
        "s",
        "http://stitcher",
        "http://origin",
        &Vec::new(),
        Track::Subtitles,
        StitchingMode::Ssai,
    )
    .unwrap();
    let body = serialize_playlist(out).unwrap();
    assert!(!body.contains("/ad/break-"));
    assert!(body.contains("/stitch/s/segment/seg0.ts"));
}

#[test]
fn asset_list_has_uppercase_keys() {
    let provider = StaticAdProvider::new("https://ads.example.com".to_string(), 1000);
    let creatives = provider.get_ad_creatives(30000, "s");
    assert_eq!(creatives.len(), 30);

    let json = asset_list_json(&creatives);
    assert!(json.starts_with("{\"ASSETS\":["));
    assert!(json.contains("\"URI\":\"https://ads.example.com/ad-segment-0.ts\""));
    assert!(json.contains("\"DURATION\":1"));
    assert!(json.ends_with("]}"));
}

#[test]
fn asset_list_of_fractional_durations() {
    let creatives = vec![AdCreative { uri: "https://cdn/a.m3u8".to_string(), duration_ms: 15500 }];
    let json = asset_list_json(&creatives);
    assert_eq!(json, "{\"ASSETS\":[{\"URI\":\"https://cdn/a.m3u8\",\"DURATION\":15.5}]}");
}

#[test]
fn track_parsing() {
    assert_eq!(parse_track(Some("audio")), Track::Audio);
    assert_eq!(parse_track(Some("subtitles")), Track::Subtitles);
    assert_eq!(parse_track(Some("video")), Track::Video);
    assert_eq!(parse_track(Some("other")), Track::Video);
    assert_eq!(parse_track(None), Track::Video);
}

#[test]
fn dur_param_parsing() {
    assert_eq!(parse_dur_param(Some(&"30".to_string())), 30000);
    assert_eq!(parse_dur_param(Some(&"12.25".to_string())), 12250);
    assert_eq!(parse_dur_param(Some(&"garbage".to_string())), 30000);
    assert_eq!(parse_dur_param(None), 30000);
}

#[test]
fn health_payload_shape() {
    let h = HealthResponse {
        status: "ok".to_string(),
        version: "0.1.0".to_string(),
        active_sessions: 3,
        uptime_seconds: 42,
    };
    assert_eq!(
        h.to_json(),
        "{\"status\":\"ok\",\"version\":\"0.1.0\",\"active_sessions\":3,\"uptime_seconds\":42}"
    );
}

#[test]
fn retry_plan_is_two_attempts() {
    let plan = fetch_plan();
    assert_eq!(plan.max_attempts, 2);
    assert_eq!(next_retry_delay(&plan, 1), Some(500));
    assert_eq!(next_retry_delay(&plan, 2), None);
}

#[test]
fn segment_url_and_content_type() {
    assert_eq!(segment_source_url("http://origin/path", "seg1.ts"), "http://origin/path/seg1.ts");
    assert_eq!(content_type_or_default(Some("video/mp4".to_string())), "video/mp4");
    assert_eq!(content_type_or_default(None), "video/MP2T");
}

#[test]
fn serializer_renders_headers_and_segments() {
    let playlist = demo_playlist();
    let body = serialize_playlist(Playlist::MediaPlaylist(playlist)).unwrap();
    assert!(body.starts_with("#EXTM3U\n#EXT-X-VERSION:3\n#EXT-X-TARGETDURATION:10\n"));
    assert!(body.contains("#EXTINF:10,\nseg0.ts\n"));
    assert!(body.contains("#EXT-X-CUE-OUT:30\n"));
    assert!(body.contains("#EXT-X-CUE-IN\n"));
    assert!(body.ends_with("#EXT-X-ENDLIST\n"));
}
