//! Slate provider: looping filler content served when no ad is
//! available.

use vstd::prelude::*;
use crate::ad::provider::{AdSegment, cycle_url, fill_count, fill_count_exec};
use crate::num::{all_digits, dec_str, dec_val, pad3, parse_u64, u64_to_string};
use crate::text::{ends_with, starts_with, str_ends_with, str_starts_with};

verus! {

/// The URI of the `i`th generated slate segment.
pub open spec fn slate_seg_uri(i: nat) -> Seq<char> {
    "slate-seg-"@ + dec_str(i) + ".ts"@
}

/// The index encoded in a slate segment name `slate-seg-{i}.ts`, when
/// it parses as a `usize`.
pub open spec fn slate_seg_index(name: Seq<char>) -> Option<nat> {
    if starts_with(name, "slate-seg-"@) && ends_with(name, ".ts"@) && name.len() >= 13 {
        let digits = name.subrange(10, name.len() - 3);
        if digits.len() > 0 && all_digits(digits) && dec_val(digits) <= usize::MAX as nat {
            Some(dec_val(digits))
        } else {
            None
        }
    } else {
        None
    }
}

/// Slate provider for fallback content during ad breaks.
#[derive(Clone, Debug)]
pub struct SlateProvider {
    /// Base URL where slate segments are hosted.
    slate_url: String,
    /// Duration of each slate segment in milliseconds.
    segment_duration_ms: u64,
    /// Number of available segments in the slate source (for cycling).
    segment_count: usize,
}

impl SlateProvider {
    /// The provider is usable: positive segment duration and count.
    pub closed spec fn wf(&self) -> bool {
        self.segment_duration_ms > 0 && self.segment_count > 0
    }

    /// The configured slate URL.
    pub closed spec fn source_view(&self) -> Seq<char> {
        self.slate_url@
    }

    /// The configured per-segment duration.
    pub closed spec fn segment_ms(&self) -> u64 {
        self.segment_duration_ms
    }

    /// The configured cycling segment count.
    pub closed spec fn count(&self) -> usize {
        self.segment_count
    }

    /// A provider over `slate_url` with ten cycled source segments.
    pub fn new(slate_url: String, segment_duration_ms: u64) -> (r: SlateProvider)
        requires
            segment_duration_ms > 0,
        ensures
            r.wf(),
            r.source_view() == slate_url@,
            r.segment_ms() == segment_duration_ms,
            r.count() == 10,
    {
        SlateProvider { slate_url, segment_duration_ms, segment_count: 10 }
    }

    /// Enough slate segments to cover the requested duration, at least
    /// one, named `slate-seg-{i}.ts`.
    pub fn fill_duration(&self, duration_ms: u64, _session_id: &str) -> (r: Vec<AdSegment>)
        requires
            self.wf(),
        ensures
            r@.len() == fill_count(duration_ms, self.segment_ms()),
            forall|i: int| 0 <= i < r@.len() ==> (#[trigger] r@[i])@.uri == slate_seg_uri(i as nat),
            forall|i: int| 0 <= i < r@.len() ==> (#[trigger] r@[i])@.duration_ms
                == self.segment_ms(),
            forall|i: int| 0 <= i < r@.len() ==> (#[trigger] r@[i])@.tracking is None,
    {
        let n = fill_count_exec(duration_ms, self.segment_duration_ms);
        let mut segments: Vec<AdSegment> = Vec::new();
        let mut i: u64 = 0;
        while i < n
            invariant
                segments@.len() == i,
                i <= n,
                n as nat == fill_count(duration_ms, self.segment_duration_ms),
                self.wf(),
                forall|j: int| 0 <= j < i ==> (#[trigger] segments@[j])@.uri == slate_seg_uri(
                    j as nat,
                ),
                forall|j: int| 0 <= j < i ==> (#[trigger] segments@[j])@.duration_ms
                    == self.segment_duration_ms,
                forall|j: int| 0 <= j < i ==> (#[trigger] segments@[j])@.tracking is None,
            decreases n - i,
        {
            let mut uri = "slate-seg-".to_owned();
            uri.append(u64_to_string(i).as_str());
            uri.append(".ts");
            segments.push(AdSegment { uri, duration_ms: self.segment_duration_ms, tracking: None });
            i += 1;
        }
        segments
    }

    /// Map a slate segment name to the cycled source URL, or `None` on
    /// a name of another form.
    pub fn resolve_segment_url(&self, segment_name: &str) -> (r: Option<String>)
        requires
            self.wf(),
        ensures
            match r {
                Some(url) => exists|v: nat| slate_seg_index(segment_name@) == Some(v) && url@
                    == cycle_url(self.source_view(), v % (self.count() as nat)),
                None => slate_seg_index(segment_name@) is None,
            },
    {
        proof {
            reveal_strlit("slate-seg-");
            reveal_strlit(".ts");
        }
        let len = segment_name.unicode_len();
        if !str_starts_with(segment_name, "slate-seg-") || !str_ends_with(segment_name, ".ts")
            || len < 13 {
            return None;
        }
        let digits = segment_name.substring_char(10, len - 3);
        let index = match parse_u64(digits) {
            Some(v) => {
                if v <= usize::MAX as u64 {
                    v as usize
                } else {
                    return None;
                }
            },
            None => {
                return None;
            },
        };
        let source_index = index % self.segment_count;
        let mut url = self.slate_url.clone();
        url.append("/out_");
        url.append(pad3(source_index as u64).as_str());
        url.append(".ts");
        Some(url)
    }

    /// The slate acts as an ad provider: segments are slate fill.
    pub fn get_ad_segments(&self, duration_ms: u64, session_id: &str) -> (r: Vec<AdSegment>)
        requires
            self.wf(),
        ensures
            r@.len() == fill_count(duration_ms, self.segment_ms()),
            forall|i: int| 0 <= i < r@.len() ==> (#[trigger] r@[i])@.uri == slate_seg_uri(i as nat),
            forall|i: int| 0 <= i < r@.len() ==> (#[trigger] r@[i])@.duration_ms
                == self.segment_ms(),
    {
        self.fill_duration(duration_ms, session_id)
    }
}

} // verus!
