use ritcher::hls::cue::{detect_ad_breaks, is_cue_in, is_in_ad_break, parse_cue_out, AdBreak};
use ritcher::hls::interstitial::{compute_pdt_at, ensure_program_date_time, inject_interstitials, is_cue_tag};
use ritcher::hls::model::{ExtTag, MediaPlaylist, MediaSegment, Playlist};
use ritcher::hls::parser::{rewrite_content_urls, rewrite_master_urls};
use ritcher::hls::model::{AlternativeMedia, MasterPlaylist, VariantStream, XAttr};
use ritcher::pdt::SYNTHETIC_EPOCH_MS;

fn create_segment(uri: &str) -> MediaSegment {
    MediaSegment {
        uri: uri.to_string(),
        duration_ms: 10000,
        title: None,
        discontinuity: false,
        program_date_time: None,
        daterange: None,
        unknown_tags: Vec::new(),
    }
}

fn create_segment_with_tag(tag: &str, rest: Option<&str>) -> MediaSegment {
    MediaSegment {
        unknown_tags: vec![ExtTag { tag: tag.to_string(), rest: rest.map(|s| s.to_string()) }],
        ..create_segment("segment.ts")
    }
}

#[test]
fn test_parse_cue_out_simple() {
    assert_eq!(parse_cue_out("X-CUE-OUT", Some("30")), Some(30000));
    assert_eq!(parse_cue_out("X-CUE-OUT", Some("60.5")), Some(60500));
}

#[test]
fn test_parse_cue_out_with_duration_key() {
    assert_eq!(parse_cue_out("X-CUE-OUT", Some("DURATION=30")), Some(30000));
    assert_eq!(parse_cue_out("X-CUE-OUT", Some("DURATION=45.5")), Some(45500));
}

#[test]
fn test_parse_cue_out_legacy() {
    assert_eq!(parse_cue_out("CUE-OUT", Some("30")), Some(30000));
}

#[test]
fn test_parse_cue_out_invalid() {
    assert_eq!(parse_cue_out("X-CUE-OUT-CONT", Some("10/30")), None);
    assert_eq!(parse_cue_out("X-CUE-IN", None), None);
    assert_eq!(parse_cue_out("X-CUE-OUT", Some("invalid")), None);
    assert_eq!(parse_cue_out("X-CUE-OUT", None), None);
}

#[test]
fn test_is_cue_in() {
    assert!(is_cue_in("X-CUE-IN"));
    assert!(is_cue_in("CUE-IN"));
    assert!(!is_cue_in("X-CUE-OUT"));
    assert!(!is_cue_in("SOMETHING"));
}

#[test]
fn test_detect_ad_breaks_simple() {
    let playlist = MediaPlaylist {
        segments: vec![
            create_segment("seg0.ts"),
            create_segment_with_tag("X-CUE-OUT", Some("30")),
            create_segment("seg2.ts"),
            create_segment("seg3.ts"),
            create_segment_with_tag("X-CUE-IN", None),
            create_segment("seg5.ts"),
        ],
        ..Default::default()
    };

    let ad_breaks = detect_ad_breaks(&playlist);

    assert_eq!(ad_breaks.len(), 1);
    assert_eq!(ad_breaks[0], AdBreak { start_index: 1, end_index: 4, duration_ms: 30000 });
}

#[test]
fn test_cue_out_and_in_on_same_segment_yields_no_break() {
    // a CUE-IN on the very segment that opened the break cancels it:
    // a break always spans at least one segment
    let playlist = MediaPlaylist {
        segments: vec![
            create_segment("seg0.ts"),
            MediaSegment {
                unknown_tags: vec![
                    ExtTag { tag: "X-CUE-OUT".to_string(), rest: Some("30".to_string()) },
                    ExtTag { tag: "X-CUE-IN".to_string(), rest: None },
                ],
                ..create_segment("seg1.ts")
            },
            create_segment("seg2.ts"),
        ],
        ..Default::default()
    };

    let ad_breaks = detect_ad_breaks(&playlist);
    assert!(ad_breaks.is_empty());
}

#[test]
fn test_detect_multiple_ad_breaks() {
    let playlist = MediaPlaylist {
        segments: vec![
            create_segment("seg0.ts"),
            create_segment_with_tag("X-CUE-OUT", Some("30")),
            create_segment("seg2.ts"),
            create_segment_with_tag("X-CUE-IN", None),
            create_segment("seg4.ts"),
            create_segment_with_tag("X-CUE-OUT", Some("60")),
            create_segment("seg6.ts"),
            create_segment_with_tag("X-CUE-IN", None),
        ],
        ..Default::default()
    };

    let ad_breaks = detect_ad_breaks(&playlist);

    assert_eq!(ad_breaks.len(), 2);
    assert_eq!(ad_breaks[0].start_index, 1);
    assert_eq!(ad_breaks[0].end_index, 3);
    assert_eq!(ad_breaks[0].duration_ms, 30000);
    assert_eq!(ad_breaks[1].start_index, 5);
    assert_eq!(ad_breaks[1].end_index, 7);
    assert_eq!(ad_breaks[1].duration_ms, 60000);
}

#[test]
fn test_detect_unclosed_ad_break() {
    let playlist = MediaPlaylist {
        segments: vec![
            create_segment("seg0.ts"),
            create_segment_with_tag("X-CUE-OUT", Some("30")),
            create_segment("seg2.ts"),
        ],
        ..Default::default()
    };

    let ad_breaks = detect_ad_breaks(&playlist);

    assert_eq!(ad_breaks.len(), 1);
    assert_eq!(ad_breaks[0].start_index, 1);
    assert_eq!(ad_breaks[0].end_index, 3);
}

#[test]
fn test_detect_with_cue_out_cont() {
    let playlist = MediaPlaylist {
        segments: vec![
            create_segment("seg0.ts"),
            create_segment_with_tag("X-CUE-OUT", Some("30")),
            create_segment_with_tag("X-CUE-OUT-CONT", Some("10/30")),
            create_segment_with_tag("X-CUE-OUT-CONT", Some("20/30")),
            create_segment_with_tag("X-CUE-IN", None),
            create_segment("seg5.ts"),
        ],
        ..Default::default()
    };

    let ad_breaks = detect_ad_breaks(&playlist);

    assert_eq!(ad_breaks.len(), 1);
    assert_eq!(ad_breaks[0].start_index, 1);
    assert_eq!(ad_breaks[0].end_index, 4);
    assert_eq!(ad_breaks[0].duration_ms, 30000);
}

#[test]
fn test_is_in_ad_break() {
    let ad_breaks = vec![AdBreak { start_index: 2, end_index: 5, duration_ms: 30000 }];

    assert!(!is_in_ad_break(0, &ad_breaks));
    assert!(!is_in_ad_break(1, &ad_breaks));
    assert!(is_in_ad_break(2, &ad_breaks));
    assert!(is_in_ad_break(3, &ad_breaks));
    assert!(is_in_ad_break(4, &ad_breaks));
    assert!(!is_in_ad_break(5, &ad_breaks));
}

// ── interstitials ───────────────────────────────────────────────────────

fn make_segment(duration_ms: u64) -> MediaSegment {
    MediaSegment { duration_ms, ..create_segment("seg.ts") }
}

fn make_segment_with_tags(duration_ms: u64, tags: Vec<(&str, Option<&str>)>) -> MediaSegment {
    let unknown_tags = tags
        .into_iter()
        .map(|(tag, rest)| ExtTag { tag: tag.to_string(), rest: rest.map(|s| s.to_string()) })
        .collect();
    MediaSegment { duration_ms, unknown_tags, ..create_segment("seg.ts") }
}

fn make_playlist(segments: Vec<MediaSegment>) -> MediaPlaylist {
    MediaPlaylist { segments, ..Default::default() }
}

#[test]
fn ensure_pdt_synthesizes_when_missing() {
    let mut playlist = make_playlist(vec![make_segment(6000), make_segment(6000), make_segment(6000)]);

    ensure_program_date_time(&mut playlist);

    assert!(playlist.segments[0].program_date_time.is_some());
    assert!(playlist.segments[1].program_date_time.is_some());
    assert!(playlist.segments[2].program_date_time.is_some());

    let pdt0 = playlist.segments[0].program_date_time.unwrap();
    let pdt1 = playlist.segments[1].program_date_time.unwrap();
    let pdt2 = playlist.segments[2].program_date_time.unwrap();

    assert_eq!(pdt0, SYNTHETIC_EPOCH_MS);
    assert_eq!(pdt1 - pdt0, 6000);
    assert_eq!(pdt2 - pdt1, 6000);
}

#[test]
fn ensure_pdt_preserves_existing() {
    let existing_pdt: i64 = 1748779200000; // 2025-06-01T12:00:00+00:00
    let mut seg = make_segment(10000);
    seg.program_date_time = Some(existing_pdt);

    let mut playlist = make_playlist(vec![seg, make_segment(10000)]);
    ensure_program_date_time(&mut playlist);

    assert_eq!(playlist.segments[0].program_date_time, Some(existing_pdt));
    assert!(playlist.segments[1].program_date_time.is_none());
}

#[test]
fn inject_single_interstitial() {
    let mut playlist = make_playlist(vec![
        make_segment(10000),
        make_segment_with_tags(10000, vec![("X-CUE-OUT", Some("30"))]),
        make_segment(10000),
        make_segment_with_tags(10000, vec![("X-CUE-IN", None)]),
        make_segment(10000),
    ]);

    ensure_program_date_time(&mut playlist);
    let ad_breaks = vec![AdBreak { start_index: 1, end_index: 3, duration_ms: 30000 }];

    inject_interstitials(&mut playlist, &ad_breaks, "sess-1", "http://localhost:3000");

    let dr = playlist.segments[1].daterange.as_ref().expect("DateRange should be set");
    assert_eq!(dr.id, "ad-break-0");
    assert_eq!(dr.class, Some("com.apple.hls.interstitial".to_string()));
    assert_eq!(dr.duration_ms, Some(30000));
}

#[test]
fn inject_multiple_interstitials() {
    let mut playlist = make_playlist(vec![
        make_segment(10000),
        make_segment_with_tags(10000, vec![("X-CUE-OUT", Some("30"))]),
        make_segment_with_tags(10000, vec![("X-CUE-IN", None)]),
        make_segment(10000),
        make_segment_with_tags(10000, vec![("X-CUE-OUT", Some("60"))]),
        make_segment_with_tags(10000, vec![("X-CUE-IN", None)]),
    ]);

    ensure_program_date_time(&mut playlist);
    let ad_breaks = vec![
        AdBreak { start_index: 1, end_index: 2, duration_ms: 30000 },
        AdBreak { start_index: 4, end_index: 5, duration_ms: 60000 },
    ];

    inject_interstitials(&mut playlist, &ad_breaks, "sess-2", "http://localhost:3000");

    assert!(playlist.segments[1].daterange.is_some());
    assert!(playlist.segments[4].daterange.is_some());
    assert_eq!(playlist.segments[1].daterange.as_ref().unwrap().id, "ad-break-0");
    assert_eq!(playlist.segments[4].daterange.as_ref().unwrap().id, "ad-break-1");
    assert_eq!(playlist.segments[4].daterange.as_ref().unwrap().duration_ms, Some(60000));
}

#[test]
fn inject_removes_cue_tags() {
    let mut playlist = make_playlist(vec![
        make_segment(10000),
        make_segment_with_tags(10000, vec![("X-CUE-OUT", Some("30")), ("X-CUE-OUT-CONT", Some("5/30"))]),
        make_segment_with_tags(10000, vec![("X-CUE-IN", None)]),
        make_segment(10000),
    ]);

    ensure_program_date_time(&mut playlist);
    let ad_breaks = vec![AdBreak { start_index: 1, end_index: 2, duration_ms: 30000 }];

    inject_interstitials(&mut playlist, &ad_breaks, "sess-3", "http://localhost:3000");

    for seg in &playlist.segments {
        for tag in &seg.unknown_tags {
            assert!(!is_cue_tag(&tag.tag), "CUE tag {} should have been removed", tag.tag);
        }
    }
}

#[test]
fn daterange_has_correct_x_attributes() {
    let mut playlist = make_playlist(vec![
        make_segment(10000),
        make_segment_with_tags(10000, vec![("X-CUE-OUT", Some("30"))]),
        make_segment_with_tags(10000, vec![("X-CUE-IN", None)]),
    ]);

    ensure_program_date_time(&mut playlist);
    let ad_breaks = vec![AdBreak { start_index: 1, end_index: 2, duration_ms: 30000 }];

    inject_interstitials(&mut playlist, &ad_breaks, "my-sess", "https://ritcher.example.com");

    let dr = playlist.segments[1].daterange.as_ref().unwrap();
    let x = &dr.x_attrs;

    let asset_list = x.iter().find(|a| a.key == "X-ASSET-LIST").expect("X-ASSET-LIST should exist");
    assert!(asset_list.value.contains("my-sess"));
    assert!(asset_list.value.contains("/asset-list/0"));
    assert!(asset_list.value.contains("dur=30"));
    assert!(asset_list.quoted);

    let resume = x.iter().find(|a| a.key == "X-RESUME-OFFSET").expect("X-RESUME-OFFSET should exist");
    assert_eq!(resume.value, "0");
    assert!(!resume.quoted);

    let restrict = x.iter().find(|a| a.key == "X-RESTRICT").expect("X-RESTRICT should exist");
    assert_eq!(restrict.value, "SKIP,JUMP");
    assert!(restrict.quoted);
}

#[test]
fn asset_list_url_format() {
    let mut playlist = make_playlist(vec![
        make_segment(6000),
        make_segment_with_tags(6000, vec![("X-CUE-OUT", Some("30"))]),
        make_segment_with_tags(6000, vec![("X-CUE-IN", None)]),
    ]);

    ensure_program_date_time(&mut playlist);
    let ad_breaks = vec![AdBreak { start_index: 1, end_index: 2, duration_ms: 30000 }];

    inject_interstitials(&mut playlist, &ad_breaks, "test-session", "https://stitcher.example.com");

    let dr = playlist.segments[1].daterange.as_ref().unwrap();
    let url = &dr.x_attrs.iter().find(|a| a.key == "X-ASSET-LIST").unwrap().value;
    assert_eq!(url, "https://stitcher.example.com/stitch/test-session/asset-list/0?dur=30");
}

#[test]
fn compute_pdt_at_accumulates_correctly() {
    let base: i64 = SYNTHETIC_EPOCH_MS;
    let mut seg0 = make_segment(10000);
    seg0.program_date_time = Some(base);

    let playlist = make_playlist(vec![seg0, make_segment(10000), make_segment(10000)]);

    let pdt2 = compute_pdt_at(&playlist, 2).unwrap();
    assert_eq!(pdt2 - base, 20000);
}

// ── master and content URL rewriting ────────────────────────────────────

#[test]
fn test_rewrite_master_urls_relative() {
    let playlist = Playlist::MasterPlaylist(MasterPlaylist {
        variants: vec![
            VariantStream { attrs: "BANDWIDTH=2000000".to_string(), uri: "720p/playlist.m3u8".to_string() },
            VariantStream { attrs: "BANDWIDTH=5000000".to_string(), uri: "1080p/playlist.m3u8".to_string() },
        ],
        ..Default::default()
    });

    let result = rewrite_master_urls(
        playlist,
        "session-1",
        "http://stitcher.example.com",
        "http://cdn.example.com/stream",
    )
    .unwrap();

    if let Playlist::MasterPlaylist(master) = result {
        assert_eq!(master.variants.len(), 2);
        assert_eq!(
            master.variants[0].uri,
            "http://stitcher.example.com/stitch/session-1/playlist.m3u8?origin=http://cdn.example.com/stream/720p/playlist.m3u8"
        );
        assert_eq!(
            master.variants[1].uri,
            "http://stitcher.example.com/stitch/session-1/playlist.m3u8?origin=http://cdn.example.com/stream/1080p/playlist.m3u8"
        );
    } else {
        panic!("Expected MasterPlaylist");
    }
}

#[test]
fn test_rewrite_master_urls_absolute() {
    let playlist = Playlist::MasterPlaylist(MasterPlaylist {
        variants: vec![VariantStream {
            attrs: "BANDWIDTH=2000000".to_string(),
            uri: "http://other-cdn.example.com/720p/playlist.m3u8".to_string(),
        }],
        ..Default::default()
    });

    let result = rewrite_master_urls(
        playlist,
        "session-1",
        "http://stitcher.example.com",
        "http://cdn.example.com/stream",
    )
    .unwrap();

    if let Playlist::MasterPlaylist(master) = result {
        assert_eq!(
            master.variants[0].uri,
            "http://stitcher.example.com/stitch/session-1/playlist.m3u8?origin=http://other-cdn.example.com/720p/playlist.m3u8"
        );
    } else {
        panic!("Expected MasterPlaylist");
    }
}

#[test]
fn test_rewrite_master_urls_with_alternatives() {
    let playlist = Playlist::MasterPlaylist(MasterPlaylist {
        variants: vec![VariantStream {
            attrs: "BANDWIDTH=2000000".to_string(),
            uri: "video/playlist.m3u8".to_string(),
        }],
        alternatives: vec![AlternativeMedia {
            attrs: vec![
                XAttr { key: "TYPE".to_string(), value: "AUDIO".to_string(), quoted: false },
                XAttr { key: "GROUP-ID".to_string(), value: "audio".to_string(), quoted: true },
                XAttr { key: "URI".to_string(), value: "audio/en/playlist.m3u8".to_string(), quoted: true },
            ],
        }],
        ..Default::default()
    });

    let result = rewrite_master_urls(
        playlist,
        "session-1",
        "http://stitcher.example.com",
        "http://cdn.example.com/stream",
    )
    .unwrap();

    if let Playlist::MasterPlaylist(master) = result {
        let uri = &master.alternatives[0].attrs.iter().find(|a| a.key == "URI").unwrap().value;
        assert_eq!(
            uri,
            "http://stitcher.example.com/stitch/session-1/playlist.m3u8?origin=http://cdn.example.com/stream/audio/en/playlist.m3u8&track=audio"
        );
    } else {
        panic!("Expected MasterPlaylist");
    }
}

#[test]
fn rewrite_content_skips_stitched_uris() {
    let playlist = Playlist::MediaPlaylist(make_playlist(vec![
        create_segment("seg0.ts"),
        create_segment("http://cdn.example.com/path/seg1.ts"),
        create_segment("http://stitcher/stitch/s/ad/break-0-seg-0.ts"),
    ]));

    let result = rewrite_content_urls(playlist, "s", "http://stitcher", "http://origin").unwrap();
    if let Playlist::MediaPlaylist(media) = result {
        assert_eq!(media.segments[0].uri, "http://stitcher/stitch/s/segment/seg0.ts?origin=http://origin");
        assert_eq!(
            media.segments[1].uri,
            "http://stitcher/stitch/s/segment/seg1.ts?origin=http://cdn.example.com/path"
        );
        assert_eq!(media.segments[2].uri, "http://stitcher/stitch/s/ad/break-0-seg-0.ts");
    } else {
        panic!("Expected MediaPlaylist");
    }
}

#[test]
fn rewrite_content_is_idempotent() {
    let playlist = Playlist::MediaPlaylist(make_playlist(vec![
        create_segment("seg0.ts"),
        create_segment("http://cdn.example.com/path/seg1.ts"),
    ]));

    let once = rewrite_content_urls(playlist, "s", "http://stitcher", "http://origin").unwrap();
    let again = once.clone();
    let twice = rewrite_content_urls(again, "s", "http://stitcher", "http://origin").unwrap();
    assert_eq!(once, twice);
}
