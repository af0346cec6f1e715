//! Ad segment and creative types, and the static ad provider.

use vstd::prelude::*;
use crate::ad::vast::{TrackingEvent, TrackingEventV};
use crate::num::{all_digits, dec_str, dec_val, pad3, pad3_str, parse_u64, u64_to_string};
use crate::text::{ends_with, split_char, split_char_spec, str_eq, str_ends_with};

verus! {

/// Tracking metadata for a single ad creative.
#[derive(Clone, Debug, Default, PartialEq)]
pub struct AdTrackingInfo {
    /// Impression URLs to fire when this ad first starts.
    pub impression_urls: Vec<String>,
    /// Quartile/progress tracking events.
    pub tracking_events: Vec<TrackingEvent>,
    /// Error URL to fire on failures.
    pub error_url: Option<String>,
    /// Total number of segments in this ad (for quartile calculation).
    pub total_segments: usize,
    /// Index of this segment within the ad.
    pub segment_index: usize,
}

/// Mathematical view of `AdTrackingInfo`.
#[verifier::ext_equal]
pub ghost struct AdTrackingInfoV {
    pub impression_urls: Seq<Seq<char>>,
    pub tracking_events: Seq<TrackingEventV>,
    pub error_url: Option<Seq<char>>,
    pub total_segments: usize,
    pub segment_index: usize,
}

impl View for AdTrackingInfo {
    type V = AdTrackingInfoV;

    open spec fn view(&self) -> AdTrackingInfoV {
        AdTrackingInfoV {
            impression_urls: self.impression_urls@.map_values(|u: String| u@),
            tracking_events: self.tracking_events@.map_values(|t: TrackingEvent| t@),
            error_url: match self.error_url {
                Some(e) => Some(e@),
                None => None,
            },
            total_segments: self.total_segments,
            segment_index: self.segment_index,
        }
    }
}

/// A single ad segment.  Duration is in milliseconds.
#[derive(Clone, Debug, PartialEq)]
pub struct AdSegment {
    /// URI of the ad segment.
    pub uri: String,
    /// Duration of the segment in milliseconds.
    pub duration_ms: u64,
    /// Tracking metadata (only present for VAST-sourced ads).
    pub tracking: Option<AdTrackingInfo>,
}

/// Mathematical view of an `AdSegment`.
#[verifier::ext_equal]
pub ghost struct AdSegmentV {
    pub uri: Seq<char>,
    pub duration_ms: u64,
    pub tracking: Option<AdTrackingInfoV>,
}

impl View for AdSegment {
    type V = AdSegmentV;

    open spec fn view(&self) -> AdSegmentV {
        AdSegmentV {
            uri: self.uri@,
            duration_ms: self.duration_ms,
            tracking: match self.tracking {
                Some(t) => Some(t@),
                None => None,
            },
        }
    }
}

/// Resolved segment source with optional tracking context.
#[derive(Clone, Debug)]
pub struct ResolvedSegment {
    /// URL to the ad segment source.
    pub url: String,
    /// Tracking context, if available and not yet fired.
    pub tracking: Option<AdTrackingInfo>,
}

/// Ad creative for the interstitial asset list: a complete ad unit, not
/// a single segment.  Duration is in milliseconds.
#[derive(Clone, Debug)]
pub struct AdCreative {
    /// URI of the ad creative (HLS playlist URL or MP4 URL).
    pub uri: String,
    /// Duration of the creative in milliseconds.
    pub duration_ms: u64,
}

/// Mathematical view of an `AdCreative`.
#[verifier::ext_equal]
pub ghost struct AdCreativeV {
    pub uri: Seq<char>,
    pub duration_ms: u64,
}

impl View for AdCreative {
    type V = AdCreativeV;

    open spec fn view(&self) -> AdCreativeV {
        AdCreativeV { uri: self.uri@, duration_ms: self.duration_ms }
    }
}

/// Number of fixed-length segments needed to cover `duration_ms`, and
/// always at least one.
pub open spec fn fill_count(duration_ms: u64, segment_ms: u64) -> nat
    recommends
        segment_ms > 0,
{
    if segment_ms == 0 || duration_ms == 0 {
        1
    } else {
        ((duration_ms + segment_ms - 1) / (segment_ms as int)) as nat
    }
}

/// The segment count as an executable value.
pub fn fill_count_exec(duration_ms: u64, segment_ms: u64) -> (n: u64)
    requires
        segment_ms > 0,
    ensures
        n as nat == fill_count(duration_ms, segment_ms),
        n >= 1,
{
    if duration_ms == 0 {
        return 1;
    }
    let wide: u128 = (duration_ms as u128 + segment_ms as u128 - 1) / (segment_ms as u128);
    assert(wide <= duration_ms as u128) by {
        assert((duration_ms as int + segment_ms - 1) / (segment_ms as int)
            <= duration_ms as int) by (nonlinear_arith)
            requires
                segment_ms >= 1,
                duration_ms >= 1,
        ;
    };
    assert(wide >= 1) by {
        assert((duration_ms as int + segment_ms - 1) / (segment_ms as int) >= 1)
            by (nonlinear_arith)
            requires
                segment_ms >= 1,
                duration_ms >= 1,
        ;
    };
    wide as u64
}

/// The URI of the `i`th generated static ad segment.
pub open spec fn static_seg_uri(source: Seq<char>, i: nat) -> Seq<char> {
    source + "/ad-segment-"@ + dec_str(i) + ".ts"@
}

/// The cycled source URL for index `i` under `base`.
pub open spec fn cycle_url(base: Seq<char>, i: nat) -> Seq<char> {
    base + "/out_"@ + pad3_str(i) + ".ts"@
}

/// The segment index encoded in an ad name of the form
/// `break-{b}-seg-{i}[.ts]`, when it parses as a `usize`.
pub open spec fn break_seg_index(name: Seq<char>) -> Option<nat> {
    let base = if ends_with(name, ".ts"@) {
        name.subrange(0, name.len() - 3)
    } else {
        name
    };
    let parts = split_char_spec(base, '-');
    if parts.len() >= 4 && parts[0] == "break"@ && parts[2] == "seg"@ && parts[3].len() > 0
        && all_digits(parts[3]) && dec_val(parts[3]) <= usize::MAX as nat {
        Some(dec_val(parts[3]))
    } else {
        None
    }
}

/// Parse the segment index out of an ad name like `break-0-seg-3.ts`.
pub fn parse_break_seg_index(ad_name: &str) -> (r: Option<usize>)
    ensures
        match r {
            Some(v) => break_seg_index(ad_name@) == Some(v as nat),
            None => break_seg_index(ad_name@) is None,
        },
{
    let len = ad_name.unicode_len();
    let base: &str = if str_ends_with(ad_name, ".ts") {
        proof {
            reveal_strlit(".ts");
        }
        ad_name.substring_char(0, len - 3)
    } else {
        ad_name
    };
    let parts = split_char(base, '-');
    let ghost pv = parts@.map_values(|x: String| x@);
    if parts.len() < 4 {
        return None;
    }
    proof {
        assert(pv[0] == parts@[0]@);
        assert(pv[2] == parts@[2]@);
        assert(pv[3] == parts@[3]@);
    }
    if !str_eq(parts[0].as_str(), "break") || !str_eq(parts[2].as_str(), "seg") {
        return None;
    }
    match parse_u64(parts[3].as_str()) {
        Some(v) => {
            if v <= usize::MAX as u64 {
                Some(v as usize)
            } else {
                None
            }
        },
        None => None,
    }
}

/// Static ad provider: a fixed ad source URL and fixed-length segments.
#[derive(Clone, Debug)]
pub struct StaticAdProvider {
    /// Base URL for ad segments.
    ad_source_url: String,
    /// Duration of each ad segment in milliseconds.
    segment_duration_ms: u64,
    /// Number of available segments in the ad source (for cycling).
    segment_count: usize,
}

impl StaticAdProvider {
    /// The provider is usable: positive segment duration and count.
    pub closed spec fn wf(&self) -> bool {
        self.segment_duration_ms > 0 && self.segment_count > 0
    }

    /// The configured source URL.
    pub closed spec fn source_view(&self) -> Seq<char> {
        self.ad_source_url@
    }

    /// The configured per-segment duration.
    pub closed spec fn segment_ms(&self) -> u64 {
        self.segment_duration_ms
    }

    /// The configured cycling segment count.
    pub closed spec fn count(&self) -> usize {
        self.segment_count
    }

    /// A provider over `ad_source_url` with ten cycled source segments.
    pub fn new(ad_source_url: String, segment_duration_ms: u64) -> (r: StaticAdProvider)
        requires
            segment_duration_ms > 0,
        ensures
            r.wf(),
            r.source_view() == ad_source_url@,
            r.segment_ms() == segment_duration_ms,
            r.count() == 10,
    {
        Self::with_segment_count(ad_source_url, segment_duration_ms, 10)
    }

    /// A provider with an explicit cycling segment count.
    pub fn with_segment_count(
        ad_source_url: String,
        segment_duration_ms: u64,
        segment_count: usize,
    ) -> (r: StaticAdProvider)
        requires
            segment_duration_ms > 0,
            segment_count > 0,
        ensures
            r.wf(),
            r.source_view() == ad_source_url@,
            r.segment_ms() == segment_duration_ms,
            r.count() == segment_count,
    {
        StaticAdProvider { ad_source_url, segment_duration_ms, segment_count }
    }

    /// Enough fixed-length segments to cover the requested duration, at
    /// least one, named `{source}/ad-segment-{i}.ts`.
    pub fn get_ad_segments(&self, duration_ms: u64, _session_id: &str) -> (r: Vec<AdSegment>)
        requires
            self.wf(),
        ensures
            r@.len() == fill_count(duration_ms, self.segment_ms()),
            forall|i: int| 0 <= i < r@.len() ==> (#[trigger] r@[i])@.uri == static_seg_uri(
                self.source_view(),
                i as nat,
            ),
            forall|i: int| 0 <= i < r@.len() ==> (#[trigger] r@[i])@.duration_ms
                == self.segment_ms(),
            forall|i: int| 0 <= i < r@.len() ==> (#[trigger] r@[i])@.tracking is None,
    {
        let n = fill_count_exec(duration_ms, self.segment_duration_ms);
        let mut segments: Vec<AdSegment> = Vec::new();
        let mut i: u64 = 0;
        while i < n
            invariant
                segments@.len() == i,
                i <= n,
                n as nat == fill_count(duration_ms, self.segment_duration_ms),
                self.wf(),
                forall|j: int| 0 <= j < i ==> (#[trigger] segments@[j])@.uri == static_seg_uri(
                    self.source_view(),
                    j as nat,
                ),
                forall|j: int| 0 <= j < i ==> (#[trigger] segments@[j])@.duration_ms
                    == self.segment_duration_ms,
                forall|j: int| 0 <= j < i ==> (#[trigger] segments@[j])@.tracking is None,
            decreases n - i,
        {
            let mut uri = self.ad_source_url.clone();
            uri.append("/ad-segment-");
            uri.append(u64_to_string(i).as_str());
            uri.append(".ts");
            segments.push(AdSegment { uri, duration_ms: self.segment_duration_ms, tracking: None });
            i += 1;
        }
        segments
    }

    /// Map an ad name to the cycled source segment URL, or `None` on a
    /// malformed name.
    pub fn resolve_segment_url(&self, ad_name: &str) -> (r: Option<String>)
        requires
            self.wf(),
        ensures
            match r {
                Some(url) => exists|v: nat| break_seg_index(ad_name@) == Some(v) && url@
                    == cycle_url(self.source_view(), v % (self.count() as nat)),
                None => break_seg_index(ad_name@) is None,
            },
    {
        let seg_index = match parse_break_seg_index(ad_name) {
            Some(v) => v,
            None => {
                return None;
            },
        };
        let source_index = seg_index % self.segment_count;
        let mut url = self.ad_source_url.clone();
        url.append("/out_");
        url.append(pad3(source_index as u64).as_str());
        url.append(".ts");
        Some(url)
    }

    /// Resolve an ad name together with tracking context; the static
    /// provider never carries tracking.
    pub fn resolve_segment_with_tracking(&self, ad_name: &str, _session_id: &str) -> (r: Option<
        ResolvedSegment,
    >)
        requires
            self.wf(),
        ensures
            match r {
                Some(seg) => seg.tracking is None && exists|v: nat|
                    break_seg_index(ad_name@) == Some(v) && seg.url@ == cycle_url(
                        self.source_view(),
                        v % (self.count() as nat),
                    ),
                None => break_seg_index(ad_name@) is None,
            },
    {
        match self.resolve_segment_url(ad_name) {
            Some(url) => Some(ResolvedSegment { url, tracking: None }),
            None => None,
        }
    }

    /// One creative per generated segment, as in the asset list.
    pub fn get_ad_creatives(&self, duration_ms: u64, session_id: &str) -> (r: Vec<AdCreative>)
        requires
            self.wf(),
        ensures
            r@.len() == fill_count(duration_ms, self.segment_ms()),
            forall|i: int| 0 <= i < r@.len() ==> (#[trigger] r@[i])@.uri == static_seg_uri(
                self.source_view(),
                i as nat,
            ),
            forall|i: int| 0 <= i < r@.len() ==> (#[trigger] r@[i])@.duration_ms
                == self.segment_ms(),
    {
        let segments = self.get_ad_segments(duration_ms, session_id);
        segments_to_creatives(segments)
    }
}

/// One creative per segment, carrying the segment's URI and duration.
pub fn segments_to_creatives(segments: Vec<AdSegment>) -> (r: Vec<AdCreative>)
    ensures
        r@.len() == segments@.len(),
        forall|i: int| 0 <= i < r@.len() ==> (#[trigger] r@[i])@.uri == segments@[i]@.uri
            && r@[i]@.duration_ms == segments@[i]@.duration_ms,
{
    let mut out: Vec<AdCreative> = Vec::new();
    let n = segments.len();
    let mut i: usize = 0;
    let ghost segs0 = segments@;
    let mut rest = segments;
    assert(rest@ =~= segs0.subrange(0, n as int));
    // consume from the front to move each URI without cloning
    while i < n
        invariant
            n == segs0.len(),
            0 <= i <= n,
            rest@ == segs0.subrange(i as int, n as int),
            out@.len() == i,
            forall|j: int| 0 <= j < i ==> (#[trigger] out@[j])@.uri == segs0[j]@.uri
                && out@[j]@.duration_ms == segs0[j]@.duration_ms,
        decreases n - i,
    {
        let seg = rest.remove(0);
        out.push(AdCreative { uri: seg.uri, duration_ms: seg.duration_ms });
        proof {
            assert(rest@ =~= segs0.subrange(i + 1, n as int));
        }
        i += 1;
    }
    out
}

} // verus!
