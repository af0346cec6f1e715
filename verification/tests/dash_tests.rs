use ritcher::ad::provider::AdSegment;
use ritcher::dash::codec::serialize_mpd;
use ritcher::dash::cue::{detect_dash_ad_breaks, is_scte35_scheme, DashAdBreak, DashSignalType};
use ritcher::dash::interleaver::interleave_ads_mpd;
use ritcher::dash::model::{
    AdaptationSet, DashEvent, EventStream, Mpd, Period, Representation, SegmentTemplate,
};
use ritcher::dash::parser::{compose_url, rewrite_dash_urls};

fn ad(uri: &str, duration_ms: u64) -> AdSegment {
    AdSegment { uri: uri.to_string(), duration_ms, tracking: None }
}

fn scte_stream(timescale: u64, presentation_time: u64, duration: u64) -> EventStream {
    EventStream {
        scheme_id_uri: Some("urn:scte:scte35:2013:xml".to_string()),
        timescale: Some(timescale),
        events: vec![DashEvent {
            id: Some("1".to_string()),
            presentation_time: Some(presentation_time),
            duration: Some(duration),
        }],
    }
}

fn content_period(id: &str) -> Period {
    Period { id: Some(id.to_string()), duration: Some("PT60S".to_string()), ..Default::default() }
}

#[test]
fn test_is_scte35_scheme() {
    assert!(is_scte35_scheme("urn:scte:scte35:2013:xml"));
    assert!(is_scte35_scheme("urn:scte:scte35:2014:xml+bin"));
    assert!(!is_scte35_scheme("urn:mpeg:dash:event:2012"));
    assert!(!is_scte35_scheme(""));
}

#[test]
fn test_detect_ad_breaks_eventstream() {
    let mut p0 = content_period("content-1");
    p0.event_streams.push(scte_stream(1, 50, 30));
    let mpd = Mpd { periods: vec![p0, content_period("content-2")], ..Default::default() };

    let ad_breaks = detect_dash_ad_breaks(&mpd);

    assert_eq!(ad_breaks.len(), 1);
    let ad_break = &ad_breaks[0];
    assert_eq!(ad_break.period_index, 0);
    assert_eq!(ad_break.period_id, Some("content-1".to_string()));
    assert_eq!(ad_break.duration_ms, 30000);
    assert_eq!(ad_break.presentation_time_ms, 50000);
    assert_eq!(ad_break.signal_type, DashSignalType::SpliceInsert);
}

#[test]
fn test_timescale_conversion() {
    let mut p0 = content_period("1");
    p0.event_streams.push(scte_stream(90000, 4500000, 2700000));
    let mpd = Mpd { periods: vec![p0], ..Default::default() };

    let ad_breaks = detect_dash_ad_breaks(&mpd);

    assert_eq!(ad_breaks.len(), 1);
    assert_eq!(ad_breaks[0].presentation_time_ms, 50000);
    assert_eq!(ad_breaks[0].duration_ms, 30000);
}

#[test]
fn test_skip_zero_duration() {
    let mut p0 = content_period("1");
    p0.event_streams.push(scte_stream(1, 10, 0));
    let mpd = Mpd { periods: vec![p0], ..Default::default() };
    assert_eq!(detect_dash_ad_breaks(&mpd).len(), 0);
}

#[test]
fn test_skip_excessive_duration() {
    let mut p0 = content_period("1");
    p0.event_streams.push(scte_stream(1, 10, 9999999));
    let mpd = Mpd { periods: vec![p0], ..Default::default() };
    assert_eq!(detect_dash_ad_breaks(&mpd).len(), 0);
}

#[test]
fn test_skip_event_without_duration() {
    let mut p0 = content_period("1");
    p0.event_streams.push(EventStream {
        scheme_id_uri: Some("urn:scte:scte35:2013:xml".to_string()),
        timescale: Some(1),
        events: vec![DashEvent { id: None, presentation_time: Some(10), duration: None }],
    });
    let mpd = Mpd { periods: vec![p0], ..Default::default() };
    assert_eq!(detect_dash_ad_breaks(&mpd).len(), 0);
}

#[test]
fn test_accept_max_valid_duration() {
    let mut p0 = content_period("1");
    p0.event_streams.push(scte_stream(1, 10, 600));
    let mpd = Mpd { periods: vec![p0], ..Default::default() };

    let ad_breaks = detect_dash_ad_breaks(&mpd);
    assert_eq!(ad_breaks.len(), 1);
    assert_eq!(ad_breaks[0].duration_ms, 600000);
}

#[test]
fn test_no_ad_breaks_in_segmenttemplate() {
    // a plain content MPD with no EventStreams signals nothing
    let mut p0 = content_period("1");
    p0.adaptations.push(AdaptationSet {
        representations: vec![Representation {
            id: Some("1".to_string()),
            bandwidth: Some(1000000),
            segment_template: Some(SegmentTemplate {
                media: Some("$Number$.m4s".to_string()),
                ..segment_template_default()
            }),
            ..representation_default()
        }],
        ..adaptation_default()
    });
    let mpd = Mpd { periods: vec![p0], ..Default::default() };
    assert_eq!(detect_dash_ad_breaks(&mpd).len(), 0);
}

fn segment_template_default() -> SegmentTemplate {
    SegmentTemplate { media: None, initialization: None, timescale: None, duration: None, start_number: None }
}

fn representation_default() -> Representation {
    Representation {
        id: None,
        bandwidth: None,
        codecs: None,
        base_urls: Vec::new(),
        segment_template: None,
        segment_list: None,
    }
}

fn adaptation_default() -> AdaptationSet {
    AdaptationSet {
        id: None,
        content_type: None,
        mime_type: None,
        lang: None,
        base_urls: Vec::new(),
        segment_template: None,
        representations: Vec::new(),
    }
}

// ── interleaver ─────────────────────────────────────────────────────────

fn create_test_mpd_with_periods(count: usize) -> Mpd {
    let mut mpd = Mpd::default();
    for i in 0..count {
        mpd.periods.push(content_period(&format!("content-{}", i)));
    }
    mpd
}

fn create_test_mpd_multi_track(count: usize) -> Mpd {
    let mut mpd = Mpd::default();
    for i in 0..count {
        let mut p = content_period(&format!("content-{}", i));
        p.adaptations = vec![
            AdaptationSet {
                content_type: Some("video".to_string()),
                mime_type: Some("video/mp4".to_string()),
                ..adaptation_default()
            },
            AdaptationSet {
                content_type: Some("audio".to_string()),
                mime_type: Some("audio/mp4".to_string()),
                lang: Some("en".to_string()),
                ..adaptation_default()
            },
        ];
        mpd.periods.push(p);
    }
    mpd
}

fn create_test_ad_break(period_index: usize, duration_ms: u64) -> DashAdBreak {
    DashAdBreak {
        period_index,
        period_id: Some(format!("content-{}", period_index)),
        duration_ms,
        presentation_time_ms: 0,
        signal_type: DashSignalType::SpliceInsert,
    }
}

#[test]
fn dash_interleave_single_ad_break() {
    let mpd = create_test_mpd_with_periods(2);
    let ad_breaks = vec![create_test_ad_break(0, 30000)];
    let ad_segments = vec![vec![ad("ad1.ts", 10000), ad("ad2.ts", 10000), ad("ad3.ts", 10000)]];

    let result = interleave_ads_mpd(mpd, &ad_breaks, &ad_segments, "test-session", "http://stitcher");

    assert_eq!(result.periods.len(), 3);
    assert_eq!(result.periods[0].id, Some("content-0".to_string()));
    assert_eq!(result.periods[1].id, Some("ad-0".to_string()));
    assert_eq!(result.periods[2].id, Some("content-1".to_string()));

    let ad_period = &result.periods[1];
    assert_eq!(ad_period.adaptations.len(), 1);
    let adaptation_set = &ad_period.adaptations[0];
    assert_eq!(adaptation_set.representations.len(), 1);
    let representation = &adaptation_set.representations[0];
    let segment_list = representation.segment_list.as_ref().unwrap();
    assert_eq!(segment_list.segment_urls.len(), 3);
    assert_eq!(ad_period.duration, Some("PT30S".to_string()));
}

#[test]
fn dash_interleave_multiple_ad_breaks() {
    let mpd = create_test_mpd_with_periods(4);
    let ad_breaks = vec![create_test_ad_break(0, 15000), create_test_ad_break(2, 20000)];
    let ad_segments = vec![vec![ad("ad1.ts", 15000)], vec![ad("ad2.ts", 10000), ad("ad3.ts", 10000)]];

    let result = interleave_ads_mpd(mpd, &ad_breaks, &ad_segments, "test", "http://test");

    assert_eq!(result.periods.len(), 6);
    assert_eq!(result.periods[0].id, Some("content-0".to_string()));
    assert_eq!(result.periods[1].id, Some("ad-0".to_string()));
    assert_eq!(result.periods[2].id, Some("content-1".to_string()));
    assert_eq!(result.periods[3].id, Some("content-2".to_string()));
    assert_eq!(result.periods[4].id, Some("ad-1".to_string()));
    assert_eq!(result.periods[5].id, Some("content-3".to_string()));
}

#[test]
fn dash_interleave_no_ad_breaks() {
    let mpd = create_test_mpd_with_periods(2);
    let result = interleave_ads_mpd(mpd.clone(), &vec![], &vec![], "test", "http://test");
    assert_eq!(result.periods.len(), mpd.periods.len());
}

#[test]
fn test_interleave_preserves_content_periods() {
    let mpd = create_test_mpd_with_periods(3);
    let original_periods = mpd.periods.clone();
    let ad_breaks = vec![create_test_ad_break(1, 30000)];
    let ad_segments = vec![vec![ad("ad.ts", 30000)]];

    let result = interleave_ads_mpd(mpd, &ad_breaks, &ad_segments, "test", "http://test");

    assert_eq!(result.periods[0].id, original_periods[0].id);
    assert_eq!(result.periods[1].id, original_periods[1].id);
    assert_eq!(result.periods[2].id, Some("ad-0".to_string()));
    assert_eq!(result.periods[3].id, original_periods[2].id);
}

#[test]
fn test_ad_period_segment_urls() {
    let mpd = create_test_mpd_with_periods(1);
    let ad_breaks = vec![create_test_ad_break(0, 30000)];
    let ad_segments = vec![vec![ad("ad1.ts", 10000), ad("ad2.ts", 10000)]];

    let result = interleave_ads_mpd(
        mpd,
        &ad_breaks,
        &ad_segments,
        "session123",
        "https://stitcher.example.com",
    );

    let ad_period = &result.periods[1];
    let segment_list = ad_period.adaptations[0].representations[0].segment_list.as_ref().unwrap();

    assert_eq!(segment_list.segment_urls.len(), 2);
    assert_eq!(
        segment_list.segment_urls[0].media,
        Some("https://stitcher.example.com/stitch/session123/ad/break-0-seg-0.ts".to_string())
    );
    assert_eq!(
        segment_list.segment_urls[1].media,
        Some("https://stitcher.example.com/stitch/session123/ad/break-0-seg-1.ts".to_string())
    );
}

#[test]
fn test_interleave_empty_ad_segments() {
    let mpd = create_test_mpd_with_periods(2);
    let ad_breaks = vec![create_test_ad_break(0, 30000)];
    let ad_segments = vec![vec![]];

    let result = interleave_ads_mpd(mpd.clone(), &ad_breaks, &ad_segments, "test", "http://test");
    assert_eq!(result.periods.len(), mpd.periods.len());
}

#[test]
fn test_ad_period_mirrors_video_and_audio_adaptation_sets() {
    let mpd = create_test_mpd_multi_track(2);
    let ad_breaks = vec![create_test_ad_break(0, 30000)];
    let ad_segments = vec![vec![ad("ad.ts", 30000)]];

    let result = interleave_ads_mpd(mpd, &ad_breaks, &ad_segments, "test", "http://test");

    let ad_period = &result.periods[1];
    assert_eq!(ad_period.id, Some("ad-0".to_string()));
    assert_eq!(ad_period.adaptations.len(), 2);
    assert_eq!(ad_period.adaptations[0].content_type, Some("video".to_string()));
    assert_eq!(ad_period.adaptations[0].mime_type, Some("video/mp4".to_string()));
    assert_eq!(ad_period.adaptations[1].content_type, Some("audio".to_string()));
    assert_eq!(ad_period.adaptations[1].mime_type, Some("audio/mp4".to_string()));
}

#[test]
fn test_ad_period_preserves_lang_attribute() {
    let mpd = create_test_mpd_multi_track(1);
    let ad_breaks = vec![create_test_ad_break(0, 15000)];
    let ad_segments = vec![vec![ad("ad.ts", 15000)]];

    let result = interleave_ads_mpd(mpd, &ad_breaks, &ad_segments, "test", "http://test");
    assert_eq!(result.periods[1].adaptations[1].lang, Some("en".to_string()));
}

#[test]
fn test_ad_period_fallback_when_no_content_adaptations() {
    let mpd = create_test_mpd_with_periods(1);
    let ad_breaks = vec![create_test_ad_break(0, 10000)];
    let ad_segments = vec![vec![ad("ad.ts", 10000)]];

    let result = interleave_ads_mpd(mpd, &ad_breaks, &ad_segments, "test", "http://test");

    let ad_period = &result.periods[1];
    assert_eq!(ad_period.adaptations.len(), 1);
    assert_eq!(ad_period.adaptations[0].content_type, Some("video".to_string()));
}

#[test]
fn test_ad_period_shared_segment_urls_across_tracks() {
    let mpd = create_test_mpd_multi_track(1);
    let ad_breaks = vec![create_test_ad_break(0, 20000)];
    let ad_segments = vec![vec![ad("ad1.ts", 10000), ad("ad2.ts", 10000)]];

    let result = interleave_ads_mpd(mpd, &ad_breaks, &ad_segments, "test", "http://test");

    let ad_period = &result.periods[1];
    let video_urls: Vec<_> = ad_period.adaptations[0].representations[0]
        .segment_list
        .as_ref()
        .unwrap()
        .segment_urls
        .iter()
        .map(|u| u.media.as_ref().unwrap())
        .collect();
    let audio_urls: Vec<_> = ad_period.adaptations[1].representations[0]
        .segment_list
        .as_ref()
        .unwrap()
        .segment_urls
        .iter()
        .map(|u| u.media.as_ref().unwrap())
        .collect();

    assert_eq!(video_urls, audio_urls);
    assert_eq!(video_urls.len(), 2);
}

// ── URL rewriting ───────────────────────────────────────────────────────

#[test]
fn test_compose_url_no_double_slashes() {
    assert_eq!(compose_url("https://example.com/", "path/to/file"), "https://example.com/path/to/file");
    assert_eq!(compose_url("https://example.com", "/path/to/file"), "https://example.com/path/to/file");
    assert_eq!(compose_url("https://example.com/", "/path/to/file"), "https://example.com/path/to/file");
    assert_eq!(compose_url("https://example.com", ""), "https://example.com");
    assert_eq!(compose_url("https://example.com/old", "https://cdn.new.com/path"), "https://cdn.new.com/path");
}

#[test]
fn test_rewrite_segment_template_urls() {
    let mut p0 = content_period("1");
    p0.adaptations.push(AdaptationSet {
        content_type: Some("video".to_string()),
        representations: vec![Representation {
            id: Some("v1".to_string()),
            bandwidth: Some(1000000),
            segment_template: Some(SegmentTemplate {
                media: Some("video-$Number$.m4s".to_string()),
                initialization: Some("video-init.mp4".to_string()),
                ..segment_template_default()
            }),
            ..representation_default()
        }],
        ..adaptation_default()
    });
    let mut mpd = Mpd { periods: vec![p0], ..Default::default() };

    rewrite_dash_urls(&mut mpd, "test-session", "http://stitcher.local", "https://origin.example.com/video")
        .expect("rewrite should succeed");

    assert!(mpd.periods[0].base_urls.is_empty());
    let template = mpd.periods[0].adaptations[0].representations[0].segment_template.as_ref().unwrap();
    let media = template.media.as_ref().unwrap();
    assert!(media.contains("/stitch/test-session/segment/"));
    assert!(media.contains("origin="));
    let init = template.initialization.as_ref().unwrap();
    assert!(init.contains("/stitch/test-session/segment/"));
}

#[test]
fn test_rewrite_multiple_adaptation_sets() {
    let mut p0 = Period::default();
    for (ct, id, bw, media, init) in [
        ("video", "v1", 1000000u64, "video-$Number$.m4s", "video-init.mp4"),
        ("audio", "a1", 128000u64, "audio-$Number$.m4s", "audio-init.mp4"),
    ] {
        p0.adaptations.push(AdaptationSet {
            content_type: Some(ct.to_string()),
            representations: vec![Representation {
                id: Some(id.to_string()),
                bandwidth: Some(bw),
                segment_template: Some(SegmentTemplate {
                    media: Some(media.to_string()),
                    initialization: Some(init.to_string()),
                    ..segment_template_default()
                }),
                ..representation_default()
            }],
            ..adaptation_default()
        });
    }
    let mut mpd = Mpd { periods: vec![p0], ..Default::default() };

    rewrite_dash_urls(&mut mpd, "test", "http://stitcher", "https://origin.example.com")
        .expect("rewrite should succeed");

    assert_eq!(mpd.periods[0].adaptations.len(), 2);

    let video = mpd.periods[0].adaptations[0].representations[0].segment_template.as_ref().unwrap();
    assert!(video.media.as_ref().unwrap().contains("/stitch/test/segment/video-"));
    assert!(video.initialization.as_ref().unwrap().contains("/stitch/test/segment/video-init"));

    let audio = mpd.periods[0].adaptations[1].representations[0].segment_template.as_ref().unwrap();
    assert!(audio.media.as_ref().unwrap().contains("/stitch/test/segment/audio-"));
    assert!(audio.initialization.as_ref().unwrap().contains("/stitch/test/segment/audio-init"));
}

#[test]
fn test_hierarchical_base_url_resolution() {
    let mut p0 = Period::default();
    p0.adaptations.push(AdaptationSet {
        representations: vec![Representation {
            id: Some("1".to_string()),
            bandwidth: Some(1000000),
            segment_template: Some(SegmentTemplate {
                media: Some("seg-$Number$.m4s".to_string()),
                initialization: Some("init.mp4".to_string()),
                ..segment_template_default()
            }),
            ..representation_default()
        }],
        ..adaptation_default()
    });
    let mut mpd = Mpd {
        base_urls: vec!["https://cdn.example.com/v1/".to_string()],
        periods: vec![p0],
        ..Default::default()
    };

    rewrite_dash_urls(&mut mpd, "sess1", "http://stitcher.local", "https://fallback.example.com")
        .expect("rewrite should succeed");

    assert!(mpd.base_urls.is_empty());
    let init = mpd.periods[0].adaptations[0].representations[0]
        .segment_template
        .as_ref()
        .unwrap()
        .initialization
        .as_ref()
        .unwrap();
    assert!(
        init.contains("origin=https://cdn.example.com/v1"),
        "Expected MPD BaseURL in origin, got: {}",
        init
    );
}

// ── serializer ──────────────────────────────────────────────────────────

#[test]
fn test_serialize_mpd_exact_output() {
    let mpd = Mpd {
        mpd_type: Some("static".to_string()),
        media_presentation_duration: Some("PT30S".to_string()),
        base_urls: vec!["http://cdn.example.com/a&b/".to_string()],
        periods: vec![Period {
            id: Some("p0".to_string()),
            duration: Some("PT30S".to_string()),
            adaptations: vec![AdaptationSet {
                mime_type: Some("video/mp4".to_string()),
                segment_template: Some(SegmentTemplate {
                    media: Some("seg-$Number$.m4s".to_string()),
                    ..segment_template_default()
                }),
                representations: vec![Representation {
                    id: Some("r0".to_string()),
                    bandwidth: Some(2000000),
                    ..representation_default()
                }],
                ..adaptation_default()
            }],
            ..content_period("p0")
        }],
        ..Default::default()
    };

    let xml = serialize_mpd(&mpd).unwrap();
    let expected = [
        "<?xml version=\"1.0\" encoding=\"UTF-8\"?>",
        "<MPD xmlns=\"urn:mpeg:dash:schema:mpd:2011\" type=\"static\" mediaPresentationDuration=\"PT30S\">",
        "  <BaseURL>http://cdn.example.com/a&amp;b/</BaseURL>",
        "  <Period id=\"p0\" duration=\"PT30S\">",
        "    <AdaptationSet mimeType=\"video/mp4\">",
        "      <SegmentTemplate media=\"seg-$Number$.m4s\"/>",
        "      <Representation id=\"r0\" bandwidth=\"2000000\">",
        "      </Representation>",
        "    </AdaptationSet>",
        "  </Period>",
        "</MPD>",
        "",
    ]
    .join("\n");
    assert_eq!(xml, expected);
}

#[test]
fn test_serialize_mpd_event_stream() {
    let mut period = content_period("p1");
    period.event_streams = vec![scte_stream(90000, 900000, 2700000)];
    let mpd = Mpd { periods: vec![period], ..Default::default() };

    let xml = serialize_mpd(&mpd).unwrap();
    assert!(xml.contains("<EventStream schemeIdUri=\"urn:scte:scte35:2013:xml\" timescale=\"90000\">"));
    assert!(xml.contains("<Event id=\"1\" presentationTime=\"900000\" duration=\"2700000\"/>"));
}
