//! The stitching pipeline and handler-side decisions: track selection,
//! playlist processing (SSAI interleave or SGAI injection plus URL
//! rewriting), the interstitial asset list, the health payload, the
//! fetch retry policy, and segment URL assembly.

use vstd::prelude::*;
use crate::ad::interleaver::{ad_counts, interleave_ads, interleave_plan, realizes_plan};
use crate::ad::provider::{AdCreative, AdCreativeV, AdSegment, AdSegmentV};
use crate::config::StitchingMode;
use crate::errors::RitcherError;
use crate::hls::cue::{AdBreak, breaks_model, cue_breaks, detect_ad_breaks};
use crate::hls::interstitial::{
    ensure_program_date_time, has_pdt, inject_fold, inject_interstitials, strip_cue,
    synthetic_fits, synthetic_pdt,
};
use crate::hls::model::{MediaPlaylistV, Playlist, PlaylistV, SegV};
use crate::hls::parser::{
    rewrite_content_urls, rewrite_master_playlist, rewrite_master_urls, rewrite_playlist,
};
use crate::num::{dec_str, ms_dec_str, ms_to_dec_string, u64_to_string};
use crate::session::json_escaped;
use crate::text::str_eq;

verus! {

/// The media track a playlist request is for.
#[derive(Clone, Copy, Debug, PartialEq, Eq, Structural)]
pub enum Track {
    Video,
    Audio,
    Subtitles,
}

/// The track named by a query value: `audio` and `subtitles` are
/// recognized; anything else, or nothing, is video.
pub fn parse_track(value: Option<&str>) -> (r: Track)
    ensures
        r == (match value {
            Some(v) => if v@ == "audio"@ {
                Track::Audio
            } else if v@ == "subtitles"@ {
                Track::Subtitles
            } else {
                Track::Video
            },
            None => Track::Video,
        }),
{
    match value {
        Some(v) => {
            if str_eq(v, "audio") {
                Track::Audio
            } else if str_eq(v, "subtitles") {
                Track::Subtitles
            } else {
                Track::Video
            }
        },
        None => Track::Video,
    }
}

/// The segments of a media playlist after the synthetic-stamp pass.
pub open spec fn pdt_fixed(segs: Seq<SegV>) -> Seq<SegV> {
    if has_pdt(segs) || !synthetic_fits(segs) {
        segs
    } else {
        Seq::new(
            segs.len(),
            |j: int| SegV { program_date_time: Some(synthetic_pdt(segs, j) as i64), ..segs[j] },
        )
    }
}

/// Process a parsed playlist through the ad pipeline.
///
/// A master playlist has its rendition URLs rewritten.  A subtitle
/// request skips ad insertion.  Otherwise, with detected breaks, SSAI
/// interleaves the supplied ads and SGAI injects interstitials; with
/// none, or with an ad list that does not match the breaks, the
/// playlist passes through.  In every case content URLs end up proxied.
pub fn process_playlist(
    playlist: Playlist,
    session_id: &str,
    base_url: &str,
    origin_base: &str,
    ad_segments_per_break: &Vec<Vec<AdSegment>>,
    track: Track,
    stitching_mode: StitchingMode,
) -> (r: Result<Playlist, RitcherError>)
    requires
        ad_segments_per_break@.len() < usize::MAX,
    ensures
        match r {
            Ok(out) => match playlist@ {
                PlaylistV::MasterPlaylist(_) => out@ == rewrite_master_playlist(
                    playlist@,
                    session_id@,
                    base_url@,
                    origin_base@,
                ),
                PlaylistV::MediaPlaylist(m) => {
                    if track is Subtitles {
                        out@ == rewrite_playlist(playlist@, session_id@, base_url@, origin_base@)
                    } else {
                        let bs = cue_breaks(m.segments);
                        let adsv = ad_segments_per_break@.map_values(
                            |v: Vec<AdSegment>| v@.map_values(|a: AdSegment| a@),
                        );
                        if bs.len() > 0 && stitching_mode is Ssai {
                            if bs.len() == adsv.len() {
                                exists|segs: Seq<SegV>|
                                    #[trigger] realizes_plan(
                                        segs,
                                        interleave_plan(
                                            m.segments.len() as int,
                                            bs,
                                            ad_counts(adsv),
                                        ),
                                        m.segments,
                                        adsv,
                                        base_url@,
                                        session_id@,
                                    ) && out@ == PlaylistV::MediaPlaylist(
                                        crate::hls::parser::rewrite_media(
                                            MediaPlaylistV { segments: segs, ..m },
                                            session_id@,
                                            base_url@,
                                            origin_base@,
                                        ),
                                    )
                            } else {
                                out@ == rewrite_playlist(
                                    playlist@,
                                    session_id@,
                                    base_url@,
                                    origin_base@,
                                )
                            }
                        } else if bs.len() > 0 && stitching_mode is Sgai {
                            out@ == PlaylistV::MediaPlaylist(
                                crate::hls::parser::rewrite_media(
                                    MediaPlaylistV {
                                        segments: strip_cue(
                                            inject_fold(
                                                pdt_fixed(m.segments),
                                                bs,
                                                0,
                                                session_id@,
                                                base_url@,
                                            ),
                                        ),
                                        ..m
                                    },
                                    session_id@,
                                    base_url@,
                                    origin_base@,
                                ),
                            )
                        } else {
                            out@ == rewrite_playlist(
                                playlist@,
                                session_id@,
                                base_url@,
                                origin_base@,
                            )
                        }
                    }
                },
            },
            Err(_) => false,
        },
{
    match playlist {
        Playlist::MasterPlaylist(m) => {
            rewrite_master_urls(Playlist::MasterPlaylist(m), session_id, base_url, origin_base)
        },
        Playlist::MediaPlaylist(media) => {
            if matches!(track, Track::Subtitles) {
                return rewrite_content_urls(
                    Playlist::MediaPlaylist(media),
                    session_id,
                    base_url,
                    origin_base,
                );
            }
            let ghost m0 = media@;
            let ad_breaks = detect_ad_breaks(&media);
            if ad_breaks.len() > 0 {
                match stitching_mode {
                    StitchingMode::Ssai => {
                        if ad_breaks.len() == ad_segments_per_break.len() {
                            let stitched = interleave_ads(
                                media,
                                &ad_breaks,
                                ad_segments_per_break,
                                session_id,
                                base_url,
                            );
                            proof {
                                assert(realizes_plan(
                                    stitched@.segments,
                                    interleave_plan(
                                        m0.segments.len() as int,
                                        breaks_model(ad_breaks@),
                                        ad_counts(
                                            ad_segments_per_break@.map_values(
                                                |v: Vec<AdSegment>| v@.map_values(
                                                    |a: AdSegment| a@,
                                                ),
                                            ),
                                        ),
                                    ),
                                    m0.segments,
                                    ad_segments_per_break@.map_values(
                                        |v: Vec<AdSegment>| v@.map_values(|a: AdSegment| a@),
                                    ),
                                    base_url@,
                                    session_id@,
                                ));
                                assert(stitched@ == (MediaPlaylistV {
                                    segments: stitched@.segments,
                                    ..m0
                                }));
                            }
                            rewrite_content_urls(
                                Playlist::MediaPlaylist(stitched),
                                session_id,
                                base_url,
                                origin_base,
                            )
                        } else {
                            rewrite_content_urls(
                                Playlist::MediaPlaylist(media),
                                session_id,
                                base_url,
                                origin_base,
                            )
                        }
                    },
                    StitchingMode::Sgai => {
                        let mut media = media;
                        ensure_program_date_time(&mut media);
                        proof {
                            assert(media@.segments =~= pdt_fixed(m0.segments));
                        }
                        inject_interstitials(&mut media, &ad_breaks, session_id, base_url);
                        rewrite_content_urls(
                            Playlist::MediaPlaylist(media),
                            session_id,
                            base_url,
                            origin_base,
                        )
                    },
                }
            } else {
                rewrite_content_urls(
                    Playlist::MediaPlaylist(media),
                    session_id,
                    base_url,
                    origin_base,
                )
            }
        },
    }
}

/// The JSON text of one asset entry.
pub open spec fn asset_entry_json(c: AdCreativeV) -> Seq<char> {
    "{\"URI\":\""@ + json_escaped(c.uri) + "\",\"DURATION\":"@ + ms_dec_str(c.duration_ms as nat)
        + "}"@
}

/// The JSON text of the asset entries from `k` on, comma-led after the
/// first.
pub open spec fn asset_entries_json(cs: Seq<AdCreativeV>, k: int) -> Seq<char>
    decreases cs.len() - k,
        when k >= 0
{
    if !(0 <= k < cs.len()) {
        Seq::empty()
    } else {
        (if k > 0 {
            ","@
        } else {
            Seq::<char>::empty()
        }) + asset_entry_json(cs[k]) + asset_entries_json(cs, k + 1)
    }
}

/// The interstitial asset-list JSON for a creative list.
pub open spec fn asset_list_json_view(cs: Seq<AdCreativeV>) -> Seq<char> {
    "{\"ASSETS\":["@ + asset_entries_json(cs, 0) + "]}"@
}

/// Render the interstitial asset-list JSON: an `ASSETS` array of
/// `URI`/`DURATION` objects, durations in decimal seconds.
pub fn asset_list_json(creatives: &Vec<AdCreative>) -> (r: String)
    ensures
        r@ == asset_list_json_view(creatives@.map_values(|c: AdCreative| c@)),
{
    let ghost cs = creatives@.map_values(|c: AdCreative| c@);
    let mut out = "{\"ASSETS\":[".to_owned();
    let ghost head = out@;
    let n = creatives.len();
    let mut k: usize = 0;
    proof {
        assert(out@ + asset_entries_json(cs, 0) =~= head + asset_entries_json(cs, 0));
    }
    while k < n
        invariant
            n == cs.len(),
            cs == creatives@.map_values(|c: AdCreative| c@),
            head == "{\"ASSETS\":["@,
            0 <= k <= n,
            out@ + asset_entries_json(cs, k as int) == head + asset_entries_json(cs, 0),
        decreases n - k,
    {
        proof {
            assert(cs[k as int] == creatives@[k as int]@);
        }
        if k > 0 {
            out.append(",");
        }
        out.append("{\"URI\":\"");
        out.append(crate::session::json_escape(creatives[k].uri.as_str()).as_str());
        out.append("\",\"DURATION\":");
        out.append(ms_to_dec_string(creatives[k].duration_ms).as_str());
        out.append("}");
        proof {
            assert(out@ + asset_entries_json(cs, k + 1) =~= head + asset_entries_json(cs, 0));
        }
        k += 1;
    }
    out.append("]}");
    proof {
        assert(asset_entries_json(cs, n as int) =~= Seq::<char>::empty());
        assert(out@ =~= asset_list_json_view(cs));
    }
    out
}

/// The `dur` query value in milliseconds, defaulting to thirty seconds.
pub fn parse_dur_param(value: Option<&String>) -> (r: u64)
    ensures
        r == (match value {
            Some(v) => match crate::num::dec_ms_opt(v@) {
                Some(ms) => if ms <= u64::MAX as nat {
                    ms as u64
                } else {
                    30000u64
                },
                None => 30000u64,
            },
            None => 30000u64,
        }),
{
    match value {
        Some(v) => match crate::num::parse_decimal_ms(v.as_str()) {
            Some(ms) => ms,
            None => 30000,
        },
        None => 30000,
    }
}

/// Health check payload.
#[derive(Clone, Debug)]
pub struct HealthResponse {
    pub status: String,
    pub version: String,
    pub active_sessions: u64,
    pub uptime_seconds: u64,
}

impl HealthResponse {
    /// The health JSON this response renders to.
    pub open spec fn json_view(&self) -> Seq<char> {
        "{\"status\":\""@ + json_escaped(self.status@) + "\",\"version\":\""@ + json_escaped(
            self.version@,
        ) + "\",\"active_sessions\":"@ + dec_str(self.active_sessions as nat)
            + ",\"uptime_seconds\":"@ + dec_str(self.uptime_seconds as nat) + "}"@
    }

    /// Render the health payload as JSON.
    pub fn to_json(&self) -> (r: String)
        ensures
            r@ == self.json_view(),
    {
        let mut out = "{\"status\":\"".to_owned();
        out.append(crate::session::json_escape(self.status.as_str()).as_str());
        out.append("\",\"version\":\"");
        out.append(crate::session::json_escape(self.version.as_str()).as_str());
        out.append("\",\"active_sessions\":");
        out.append(u64_to_string(self.active_sessions).as_str());
        out.append(",\"uptime_seconds\":");
        out.append(u64_to_string(self.uptime_seconds).as_str());
        out.append("}");
        out
    }
}

/// The retry policy of the byte proxies: up to two attempts, half a
/// second apart.
#[derive(Clone, Copy, Debug, PartialEq, Eq, Structural)]
pub struct FetchPlan {
    pub max_attempts: u32,
    pub backoff_ms: u64,
}

/// The upstream fetch plan.
pub fn fetch_plan() -> (r: FetchPlan)
    ensures
        r.max_attempts == 2,
        r.backoff_ms == 500,
{
    FetchPlan { max_attempts: 2, backoff_ms: 500 }
}

/// After a failed attempt (1-based), how long to wait before the next
/// one, if any is left.
pub fn next_retry_delay(plan: &FetchPlan, attempt: u32) -> (r: Option<u64>)
    ensures
        r == (if attempt < plan.max_attempts {
            Some(plan.backoff_ms)
        } else {
            None::<u64>
        }),
{
    if attempt < plan.max_attempts {
        Some(plan.backoff_ms)
    } else {
        None
    }
}

/// The upstream URL of a proxied content segment.
pub fn segment_source_url(origin_base: &str, segment_path: &str) -> (r: String)
    ensures
        r@ == origin_base@ + "/"@ + segment_path@,
{
    let mut out = origin_base.to_owned();
    out.append("/");
    out.append(segment_path);
    out
}

/// The content type a proxied segment response carries: the upstream
/// one when present, else MPEG-TS.
pub fn content_type_or_default(upstream: Option<String>) -> (r: String)
    ensures
        r@ == (match upstream {
            Some(ct) => ct@,
            None => "video/MP2T"@,
        }),
{
    match upstream {
        Some(ct) => ct,
        None => "video/MP2T".to_owned(),
    }
}

} // verus!
