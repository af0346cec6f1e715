//! The VAST response tree and media-file selection.

use vstd::prelude::*;
use crate::num::dec_ms_sat;
use crate::text::{split_char, split_char_spec, str_eq, trim, trim_spec};

verus! {

/// Tracking event for ad playback reporting.
#[derive(Clone, Debug, PartialEq)]
pub struct TrackingEvent {
    pub event: String,
    pub url: String,
}

/// Mathematical view of a `TrackingEvent`.
#[verifier::ext_equal]
pub ghost struct TrackingEventV {
    pub event: Seq<char>,
    pub url: Seq<char>,
}

impl View for TrackingEvent {
    type V = TrackingEventV;

    open spec fn view(&self) -> TrackingEventV {
        TrackingEventV { event: self.event@, url: self.url@ }
    }
}

impl TrackingEvent {
    /// An exact copy.
    pub fn duplicate(&self) -> (r: TrackingEvent)
        ensures
            r@ == self@,
    {
        TrackingEvent { event: self.event.clone(), url: self.url.clone() }
    }
}

/// A single media file of an ad creative.
#[derive(Clone, Debug, PartialEq)]
pub struct MediaFile {
    pub url: String,
    pub delivery: String,
    pub mime_type: String,
    pub width: u32,
    pub height: u32,
    pub bitrate: Option<u32>,
    pub codec: Option<String>,
}

/// Mathematical view of a `MediaFile`.
#[verifier::ext_equal]
pub ghost struct MediaFileV {
    pub url: Seq<char>,
    pub delivery: Seq<char>,
    pub mime_type: Seq<char>,
    pub width: u32,
    pub height: u32,
    pub bitrate: Option<u32>,
    pub codec: Option<Seq<char>>,
}

impl View for MediaFile {
    type V = MediaFileV;

    open spec fn view(&self) -> MediaFileV {
        MediaFileV {
            url: self.url@,
            delivery: self.delivery@,
            mime_type: self.mime_type@,
            width: self.width,
            height: self.height,
            bitrate: self.bitrate,
            codec: match self.codec {
                Some(c) => Some(c@),
                None => None,
            },
        }
    }
}

/// Linear (video) ad content.  Duration is in milliseconds.
#[derive(Clone, Debug, PartialEq)]
pub struct LinearAd {
    pub duration_ms: u64,
    pub media_files: Vec<MediaFile>,
    pub tracking_events: Vec<TrackingEvent>,
}

/// A creative holding optional linear content.
#[derive(Clone, Debug, PartialEq)]
pub struct Creative {
    pub id: String,
    pub linear: Option<LinearAd>,
}

/// InLine ad with creative content.
#[derive(Clone, Debug, PartialEq)]
pub struct InLineAd {
    pub ad_system: String,
    pub ad_title: String,
    pub creatives: Vec<Creative>,
    pub impression_urls: Vec<String>,
    pub error_url: Option<String>,
}

/// Wrapper ad that references another VAST tag.
#[derive(Clone, Debug, PartialEq)]
pub struct WrapperAd {
    pub ad_tag_uri: String,
    pub impression_urls: Vec<String>,
    pub tracking_events: Vec<TrackingEvent>,
}

/// InLine ad (actual creative) or Wrapper (redirect to another VAST).
#[derive(Clone, Debug, PartialEq)]
pub enum VastAdType {
    InLine(InLineAd),
    Wrapper(WrapperAd),
}

/// A single ad from a VAST response.
#[derive(Clone, Debug, PartialEq)]
pub struct VastAd {
    pub id: String,
    pub ad_type: VastAdType,
}

/// A parsed VAST response.
#[derive(Clone, Debug, PartialEq)]
pub struct VastResponse {
    pub version: String,
    pub ads: Vec<VastAd>,
}

/// The HLS mime type preferred for stitching.
pub open spec fn is_hls_file(f: MediaFileV) -> bool {
    f.mime_type == "application/x-mpegURL"@
}

/// A progressive MP4 fallback candidate.
pub open spec fn is_prog_mp4(f: MediaFileV) -> bool {
    f.delivery == "progressive"@ && f.mime_type == "video/mp4"@
}

/// Bitrate ordering key: an absent bitrate sorts lowest.
pub open spec fn bitrate_key(f: MediaFileV) -> int {
    match f.bitrate {
        Some(b) => b as int + 1,
        None => 0,
    }
}

/// Select the best media file for stitching: the first HLS entry if one
/// exists, else the earliest progressive MP4 with the highest bitrate,
/// else nothing.
pub fn select_best_media_file(media_files: &Vec<MediaFile>) -> (r: Option<&MediaFile>)
    ensures
        match r {
            Some(f) => {
                ||| exists|i: int| 0 <= i < media_files@.len()
                    && is_hls_file(#[trigger] media_files@[i]@) && f@ == media_files@[i]@
                    && (forall|j: int| 0 <= j < i ==> !is_hls_file(#[trigger] media_files@[j]@))
                ||| {
                    &&& forall|j: int| 0 <= j < media_files@.len()
                        ==> !is_hls_file(#[trigger] media_files@[j]@)
                    &&& exists|i: int| 0 <= i < media_files@.len()
                        && is_prog_mp4(#[trigger] media_files@[i]@) && f@ == media_files@[i]@
                        && (forall|j: int| 0 <= j < media_files@.len()
                            && is_prog_mp4(#[trigger] media_files@[j]@)
                            ==> bitrate_key(media_files@[j]@) <= bitrate_key(media_files@[i]@))
                        && (forall|j: int| 0 <= j < i && is_prog_mp4(#[trigger] media_files@[j]@)
                            ==> bitrate_key(media_files@[j]@) < bitrate_key(media_files@[i]@))
                }
            },
            None => forall|j: int| 0 <= j < media_files@.len()
                ==> !is_hls_file(#[trigger] media_files@[j]@)
                    && !is_prog_mp4(#[trigger] media_files@[j]@),
        },
{
    let n = media_files.len();
    let mut i: usize = 0;
    while i < n
        invariant
            n == media_files@.len(),
            0 <= i <= n,
            forall|j: int| 0 <= j < i ==> !is_hls_file(#[trigger] media_files@[j]@),
        decreases n - i,
    {
        if str_eq(media_files[i].mime_type.as_str(), "application/x-mpegURL") {
            return Some(&media_files[i]);
        }
        i += 1;
    }
    let mut best: Option<usize> = None;
    let mut k: usize = 0;
    while k < n
        invariant
            n == media_files@.len(),
            0 <= k <= n,
            match best {
                Some(b) => 0 <= b < k && is_prog_mp4(media_files@[b as int]@)
                    && (forall|j: int| 0 <= j < k && is_prog_mp4(#[trigger] media_files@[j]@)
                        ==> bitrate_key(media_files@[j]@) <= bitrate_key(media_files@[b as int]@))
                    && (forall|j: int| 0 <= j < b && is_prog_mp4(#[trigger] media_files@[j]@)
                        ==> bitrate_key(media_files@[j]@) < bitrate_key(media_files@[b as int]@)),
                None => forall|j: int| 0 <= j < k ==> !is_prog_mp4(#[trigger] media_files@[j]@),
            },
        decreases n - k,
    {
        let f = &media_files[k];
        if str_eq(f.delivery.as_str(), "progressive") && str_eq(f.mime_type.as_str(), "video/mp4")
        {
            let key: u64 = match f.bitrate {
                Some(b) => b as u64 + 1,
                None => 0,
            };
            match best {
                Some(b) => {
                    let bkey: u64 = match media_files[b].bitrate {
                        Some(x) => x as u64 + 1,
                        None => 0,
                    };
                    if key > bkey {
                        best = Some(k);
                    }
                },
                None => {
                    best = Some(k);
                },
            }
        }
        k += 1;
    }
    match best {
        Some(b) => Some(&media_files[b]),
        None => None,
    }
}

/// Millisecond value of a VAST `HH:MM:SS` or `HH:MM:SS.mmm` duration
/// string: each colon piece is read as saturating decimal seconds (a
/// malformed piece as zero), weighted, and the total saturates at the
/// largest `u64`.  A string that does not split into three colon pieces
/// is zero.
pub open spec fn vast_duration_ms(s: Seq<char>) -> u64 {
    let parts = split_char_spec(trim_spec(s), ':');
    if parts.len() == 3 {
        let total = (dec_ms_sat(parts[0]) as int) * 3600 + (dec_ms_sat(parts[1]) as int) * 60
            + (dec_ms_sat(parts[2]) as int);
        if total > u64::MAX {
            u64::MAX
        } else {
            total as u64
        }
    } else {
        0u64
    }
}

/// Parse a VAST duration string to milliseconds.
pub fn parse_duration(duration: &str) -> (r: u64)
    ensures
        r == vast_duration_ms(duration@),
{
    let parts = split_char(trim(duration), ':');
    if parts.len() != 3 {
        proof {
            assert(split_char_spec(trim_spec(duration@), ':').len() != 3);
        }
        return 0;
    }
    proof {
        assert(parts@.map_values(|x: String| x@)[0] == parts@[0]@);
        assert(parts@.map_values(|x: String| x@)[1] == parts@[1]@);
        assert(parts@.map_values(|x: String| x@)[2] == parts@[2]@);
    }
    let h = crate::num::parse_decimal_sat(parts[0].as_str());
    let m = crate::num::parse_decimal_sat(parts[1].as_str());
    let s = crate::num::parse_decimal_sat(parts[2].as_str());
    let total: u128 = (h as u128) * 3600 + (m as u128) * 60 + (s as u128);
    if total > u64::MAX as u128 {
        u64::MAX
    } else {
        total as u64
    }
}

/// Mathematical view of a `LinearAd`.
#[verifier::ext_equal]
pub ghost struct LinearAdV {
    pub duration_ms: u64,
    pub media_files: Seq<MediaFileV>,
    pub tracking_events: Seq<TrackingEventV>,
}

impl View for LinearAd {
    type V = LinearAdV;

    open spec fn view(&self) -> LinearAdV {
        LinearAdV {
            duration_ms: self.duration_ms,
            media_files: self.media_files@.map_values(|f: MediaFile| f@),
            tracking_events: self.tracking_events@.map_values(|t: TrackingEvent| t@),
        }
    }
}

/// Mathematical view of a `Creative`.
#[verifier::ext_equal]
pub ghost struct CreativeV {
    pub id: Seq<char>,
    pub linear: Option<LinearAdV>,
}

impl View for Creative {
    type V = CreativeV;

    open spec fn view(&self) -> CreativeV {
        CreativeV {
            id: self.id@,
            linear: match self.linear {
                Some(l) => Some(l@),
                None => None,
            },
        }
    }
}

/// Mathematical view of an `InLineAd`.
#[verifier::ext_equal]
pub ghost struct InLineAdV {
    pub ad_system: Seq<char>,
    pub ad_title: Seq<char>,
    pub creatives: Seq<CreativeV>,
    pub impression_urls: Seq<Seq<char>>,
    pub error_url: Option<Seq<char>>,
}

impl View for InLineAd {
    type V = InLineAdV;

    open spec fn view(&self) -> InLineAdV {
        InLineAdV {
            ad_system: self.ad_system@,
            ad_title: self.ad_title@,
            creatives: self.creatives@.map_values(|c: Creative| c@),
            impression_urls: self.impression_urls@.map_values(|u: String| u@),
            error_url: match self.error_url {
                Some(e) => Some(e@),
                None => None,
            },
        }
    }
}

/// Mathematical view of a `WrapperAd`.
#[verifier::ext_equal]
pub ghost struct WrapperAdV {
    pub ad_tag_uri: Seq<char>,
    pub impression_urls: Seq<Seq<char>>,
    pub tracking_events: Seq<TrackingEventV>,
}

impl View for WrapperAd {
    type V = WrapperAdV;

    open spec fn view(&self) -> WrapperAdV {
        WrapperAdV {
            ad_tag_uri: self.ad_tag_uri@,
            impression_urls: self.impression_urls@.map_values(|u: String| u@),
            tracking_events: self.tracking_events@.map_values(|t: TrackingEvent| t@),
        }
    }
}

/// Mathematical view of a `VastAdType`.
#[verifier::ext_equal]
pub ghost enum VastAdTypeV {
    InLine(InLineAdV),
    Wrapper(WrapperAdV),
}

impl View for VastAdType {
    type V = VastAdTypeV;

    open spec fn view(&self) -> VastAdTypeV {
        match self {
            VastAdType::InLine(i) => VastAdTypeV::InLine(i@),
            VastAdType::Wrapper(w) => VastAdTypeV::Wrapper(w@),
        }
    }
}

/// Mathematical view of a `VastAd`.
#[verifier::ext_equal]
pub ghost struct VastAdV {
    pub id: Seq<char>,
    pub ad_type: VastAdTypeV,
}

impl View for VastAd {
    type V = VastAdV;

    open spec fn view(&self) -> VastAdV {
        VastAdV { id: self.id@, ad_type: self.ad_type@ }
    }
}

/// Mathematical view of a `VastResponse`.
#[verifier::ext_equal]
pub ghost struct VastResponseV {
    pub version: Seq<char>,
    pub ads: Seq<VastAdV>,
}

impl View for VastResponse {
    type V = VastResponseV;

    open spec fn view(&self) -> VastResponseV {
        VastResponseV { version: self.version@, ads: self.ads@.map_values(|a: VastAd| a@) }
    }
}

/// The first HLS entry's index, if any.
pub open spec fn find_first_hls(files: Seq<MediaFileV>) -> Option<int>
    decreases files.len(),
{
    if files.len() == 0 {
        None
    } else if is_hls_file(files.first()) {
        Some(0)
    } else {
        match find_first_hls(files.drop_first()) {
            Some(i) => Some(i + 1),
            None => None,
        }
    }
}

/// The best progressive MP4 from position `i` on, given the best so
/// far: later entries replace only with a strictly higher bitrate key.
pub open spec fn best_prog_from(files: Seq<MediaFileV>, i: int, cur: Option<MediaFileV>) -> Option<
    MediaFileV,
>
    decreases files.len() - i,
        when i >= 0
{
    if i >= files.len() {
        cur
    } else {
        let cand = files[i];
        let replace = is_prog_mp4(cand) && (match cur {
            Some(b) => bitrate_key(cand) > bitrate_key(b),
            None => true,
        });
        best_prog_from(files, i + 1, if replace {
            Some(cand)
        } else {
            cur
        })
    }
}

/// The media file the selection rule picks: the first HLS entry, else
/// the earliest progressive MP4 with the highest bitrate, else none.
pub open spec fn best_media_spec(files: Seq<MediaFileV>) -> Option<MediaFileV> {
    match find_first_hls(files) {
        Some(i) => Some(files[i]),
        None => best_prog_from(files, 0, None),
    }
}

} // verus!
