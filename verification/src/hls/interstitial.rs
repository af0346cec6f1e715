//! HLS Interstitials (SGAI): synthesize program-date-time stamps,
//! inject `EXT-X-DATERANGE` interstitial markers at ad-break starts,
//! and strip the legacy CUE tags.

use vstd::prelude::*;
use crate::hls::cue::{AdBreak, breaks_model, cue_in_name, cue_out_cont_name, cue_out_name};
use crate::hls::model::{
    DateRange, DateRangeV, ExtTag, ExtTagV, MediaPlaylist, SegV, XAttr, XAttrV,
};
use crate::num::{dec_str, ms_dec_str, ms_to_dec_string, u64_to_string, usize_to_string};
use crate::pdt::{SYNTHETIC_EPOCH_MS, format_rfc3339_ms, rfc3339_of};
use crate::text::str_eq;

verus! {

/// Total duration of segments `[a, b)`, in milliseconds.
pub open spec fn dur_sum(segs: Seq<SegV>, a: int, b: int) -> int
    decreases b - a,
        when a >= 0
{
    if a >= b {
        0
    } else {
        segs[a].duration_ms + dur_sum(segs, a + 1, b)
    }
}

/// Whether any segment carries a program-date-time.
pub open spec fn has_pdt(segs: Seq<SegV>) -> bool {
    exists|j: int| 0 <= j < segs.len() && (#[trigger] segs[j]).program_date_time is Some
}

/// The nearest segment at or before `t` that carries a program-date-time.
pub open spec fn anchor_at(segs: Seq<SegV>, t: int) -> Option<int>
    decreases t + 1,
        when t >= 0
{
    if t < 0 {
        None
    } else if 0 <= t < segs.len() && segs[t].program_date_time is Some {
        Some(t)
    } else if t == 0 {
        None
    } else {
        anchor_at(segs, t - 1)
    }
}

/// The program-date-time of segment `t`: the nearest anchor plus the
/// durations between it and `t`.
pub open spec fn pdt_at(segs: Seq<SegV>, t: int) -> Option<int> {
    match anchor_at(segs, t) {
        Some(a) => Some(segs[a].program_date_time->0 + dur_sum(segs, a, t)),
        None => None,
    }
}

/// The asset-list URL for break `idx` of a session.
pub open spec fn asset_list_url(base: Seq<char>, sid: Seq<char>, idx: int, dur_ms: nat) -> Seq<
    char,
> {
    base + "/stitch/"@ + sid + "/asset-list/"@ + dec_str(idx as nat) + "?dur="@ + ms_dec_str(
        dur_ms,
    )
}

/// The DateRange injected for break `idx` starting at `start_ms`.
pub open spec fn break_daterange(
    idx: int,
    start_ms: i64,
    dur_ms: nat,
    sid: Seq<char>,
    base: Seq<char>,
) -> DateRangeV {
    DateRangeV {
        id: "ad-break-"@ + dec_str(idx as nat),
        class: Some("com.apple.hls.interstitial"@),
        start_date: rfc3339_of(start_ms),
        end_date: None,
        duration_ms: Some(dur_ms as u64),
        planned_duration_ms: None,
        x_attrs: seq![
            XAttrV { key: "X-ASSET-LIST"@, value: asset_list_url(base, sid, idx, dur_ms), quoted: true },
            XAttrV { key: "X-RESUME-OFFSET"@, value: "0"@, quoted: false },
            XAttrV { key: "X-RESTRICT"@, value: "SKIP,JUMP"@, quoted: true },
        ],
        end_on_next: false,
    }
}

/// Attach break `idx`'s DateRange to the segment at its start, when the
/// start is in range and a representable program-date-time exists there.
pub open spec fn apply_break(
    segs: Seq<SegV>,
    b: (int, int, nat),
    idx: int,
    sid: Seq<char>,
    base: Seq<char>,
) -> Seq<SegV> {
    if 0 <= b.0 < segs.len() {
        match pdt_at(segs, b.0) {
            Some(v) => if i64::MIN <= v <= i64::MAX {
                segs.update(
                    b.0,
                    SegV {
                        daterange: Some(break_daterange(idx, v as i64, b.2, sid, base)),
                        ..segs[b.0]
                    },
                )
            } else {
                segs
            },
            None => segs,
        }
    } else {
        segs
    }
}

/// All breaks from `k` on applied in order.
pub open spec fn inject_fold(
    segs: Seq<SegV>,
    bs: Seq<(int, int, nat)>,
    k: int,
    sid: Seq<char>,
    base: Seq<char>,
) -> Seq<SegV>
    decreases bs.len() - k,
        when k >= 0
{
    if !(0 <= k < bs.len()) {
        segs
    } else {
        inject_fold(apply_break(segs, bs[k], k, sid, base), bs, k + 1, sid, base)
    }
}

/// The tag name is one of the CUE markers.
pub open spec fn cue_tag_name(t: Seq<char>) -> bool {
    cue_in_name(t) || cue_out_cont_name(t) || cue_out_name(t)
}

/// A segment with its CUE tags removed.
pub open spec fn strip_cue_seg(s: SegV) -> SegV {
    SegV { unknown_tags: s.unknown_tags.filter(|t: ExtTagV| !cue_tag_name(t.tag)), ..s }
}

/// All segments with their CUE tags removed.
pub open spec fn strip_cue(segs: Seq<SegV>) -> Seq<SegV> {
    segs.map_values(|s: SegV| strip_cue_seg(s))
}

/// Whether a tag name is one of the CUE markers.
pub fn is_cue_tag(tag_name: &str) -> (r: bool)
    ensures
        r == cue_tag_name(tag_name@),
{
    str_eq(tag_name, "X-CUE-OUT") || str_eq(tag_name, "CUE-OUT") || str_eq(
        tag_name,
        "X-CUE-OUT-CONT",
    ) || str_eq(tag_name, "CUE-OUT-CONT") || str_eq(tag_name, "X-CUE-IN") || str_eq(
        tag_name,
        "CUE-IN",
    )
}

/// Compute the program-date-time of the segment at `target_index` by
/// walking back to the nearest anchor and accumulating durations.
/// `None` when no anchor exists at or before the target, or when the
/// value leaves the representable range.
pub fn compute_pdt_at(playlist: &MediaPlaylist, target_index: usize) -> (r: Option<i64>)
    requires
        target_index < playlist@.segments.len(),
    ensures
        match r {
            Some(v) => pdt_at(playlist@.segments, target_index as int) == Some(v as int),
            None => match pdt_at(playlist@.segments, target_index as int) {
                Some(v) => v > i64::MAX || v < i64::MIN,
                None => true,
            },
        },
{
    let ghost segs = playlist@.segments;
    // find the nearest anchor at or before the target
    let mut a: usize = target_index;
    while playlist.segments[a].program_date_time.is_none() && a > 0
        invariant
            target_index < segs.len(),
            segs == playlist@.segments,
            0 <= a <= target_index,
            anchor_at(segs, target_index as int) == anchor_at(segs, a as int),
        decreases a,
    {
        proof {
            assert(segs[a as int] == playlist.segments@[a as int]@);
        }
        a -= 1;
    }
    proof {
        assert(segs[a as int] == playlist.segments@[a as int]@);
    }
    let anchor_pdt = match playlist.segments[a].program_date_time {
        Some(v) => v,
        None => {
            assert(anchor_at(segs, 0) is None);
            return None;
        },
    };
    assert(anchor_at(segs, target_index as int) == Some(a as int));
    // accumulate durations from the anchor to the target
    let mut acc: i128 = anchor_pdt as i128;
    let mut j: usize = a;
    while j < target_index
        invariant
            a <= j <= target_index < segs.len(),
            segs == playlist@.segments,
            anchor_at(segs, target_index as int) == Some(a as int),
            segs[a as int].program_date_time == Some(anchor_pdt),
            acc == anchor_pdt + dur_sum(segs, a as int, j as int),
            anchor_pdt as int >= i64::MIN,
            acc >= i64::MIN,
            acc <= i64::MAX as i128 + u64::MAX as i128,
        decreases target_index - j,
    {
        if acc > i64::MAX as i128 {
            proof {
                lemma_dur_sum_split(segs, a as int, j as int, target_index as int);
                lemma_dur_sum_nonneg(segs, j as int, target_index as int);
            }
            return None;
        }
        proof {
            assert(segs[j as int] == playlist.segments@[j as int]@);
            lemma_dur_sum_snoc(segs, a as int, j as int);
        }
        acc = acc + playlist.segments[j].duration_ms as i128;
        j += 1;
    }
    if acc > i64::MAX as i128 {
        return None;
    }
    Some(acc as i64)
}

/// Splitting a duration sum at a midpoint.
proof fn lemma_dur_sum_split(segs: Seq<SegV>, a: int, m: int, b: int)
    requires
        0 <= a <= m <= b,
    ensures
        dur_sum(segs, a, b) == dur_sum(segs, a, m) + dur_sum(segs, m, b),
    decreases m - a,
{
    if a < m {
        lemma_dur_sum_split(segs, a + 1, m, b);
    }
}

/// Duration sums are non-negative.
proof fn lemma_dur_sum_nonneg(segs: Seq<SegV>, a: int, b: int)
    requires
        0 <= a,
    ensures
        dur_sum(segs, a, b) >= 0,
    decreases b - a,
{
    if a < b {
        lemma_dur_sum_nonneg(segs, a + 1, b);
    }
}

/// Extending a duration sum by one segment at the end.
proof fn lemma_dur_sum_snoc(segs: Seq<SegV>, a: int, j: int)
    requires
        0 <= a <= j,
    ensures
        dur_sum(segs, a, j + 1) == dur_sum(segs, a, j) + segs[j].duration_ms,
    decreases j - a,
{
    if a < j {
        lemma_dur_sum_snoc(segs, a + 1, j);
    } else {
        assert(dur_sum(segs, j + 1, j + 1) == 0);
    }
}

/// The synthetic program-date-time of segment `j`: the fixed epoch plus
/// the durations before it.
pub open spec fn synthetic_pdt(segs: Seq<SegV>, j: int) -> int {
    SYNTHETIC_EPOCH_MS + dur_sum(segs, 0, j)
}

/// Whether every synthetic stamp stays representable.
pub open spec fn synthetic_fits(segs: Seq<SegV>) -> bool {
    SYNTHETIC_EPOCH_MS + dur_sum(segs, 0, segs.len() as int) <= i64::MAX
}

/// Ensure every segment has a program-date-time.
///
/// If any segment already carries one the playlist is left unchanged
/// (existing timing is preserved).  Otherwise synthetic stamps are
/// assigned from the fixed epoch, advancing by each segment's duration;
/// if the stamps would leave the representable range nothing is
/// assigned.
pub fn ensure_program_date_time(playlist: &mut MediaPlaylist)
    ensures
        final(playlist)@.version == old(playlist)@.version,
        final(playlist)@.target_duration_ms == old(playlist)@.target_duration_ms,
        final(playlist)@.media_sequence == old(playlist)@.media_sequence,
        final(playlist)@.discontinuity_sequence == old(playlist)@.discontinuity_sequence,
        final(playlist)@.end_list == old(playlist)@.end_list,
        final(playlist)@.trailing_tags == old(playlist)@.trailing_tags,
        has_pdt(old(playlist)@.segments) || !synthetic_fits(old(playlist)@.segments) ==> final(playlist)@ == old(playlist)@,
        !has_pdt(old(playlist)@.segments) && synthetic_fits(old(playlist)@.segments) ==> {
            &&& final(playlist)@.segments.len() == old(playlist)@.segments.len()
            &&& forall|j: int| 0 <= j < old(playlist)@.segments.len() ==> final(playlist)@.segments[j] == (SegV {
                program_date_time: Some(synthetic_pdt(old(playlist)@.segments, j) as i64),
                ..old(playlist)@.segments[j]
            })
        },
{
    let ghost segs0 = playlist@.segments;
    let n = playlist.segments.len();
    // check for an existing stamp
    let mut i: usize = 0;
    while i < n
        invariant
            n == segs0.len(),
            segs0 == playlist@.segments,
            0 <= i <= n,
            forall|j: int| 0 <= j < i ==> (#[trigger] segs0[j]).program_date_time is None,
        decreases n - i,
    {
        proof {
            assert(segs0[i as int] == playlist.segments@[i as int]@);
        }
        if playlist.segments[i].program_date_time.is_some() {
            assert(has_pdt(segs0));
            return;
        }
        i += 1;
    }
    assert(!has_pdt(segs0));
    // check that the synthetic stamps fit
    let mut total: i128 = SYNTHETIC_EPOCH_MS as i128;
    let mut j: usize = 0;
    while j < n
        invariant
            n == segs0.len(),
            segs0 == playlist@.segments,
            0 <= j <= n,
            total == SYNTHETIC_EPOCH_MS + dur_sum(segs0, 0, j as int),
            total >= SYNTHETIC_EPOCH_MS,
            total <= i64::MAX as i128 + u64::MAX as i128,
        decreases n - j,
    {
        if total > i64::MAX as i128 {
            proof {
                lemma_dur_sum_split(segs0, 0, j as int, n as int);
                lemma_dur_sum_nonneg(segs0, j as int, n as int);
            }
            assert(!synthetic_fits(segs0));
            return;
        }
        proof {
            assert(segs0[j as int] == playlist.segments@[j as int]@);
            lemma_dur_sum_snoc(segs0, 0, j as int);
        }
        total = total + playlist.segments[j].duration_ms as i128;
        j += 1;
    }
    if total > i64::MAX as i128 {
        assert(!synthetic_fits(segs0));
        return;
    }
    assert(synthetic_fits(segs0));
    // assign the stamps
    let mut offset: i128 = SYNTHETIC_EPOCH_MS as i128;
    let mut k: usize = 0;
    while k < n
        invariant
            n == segs0.len(),
            n == playlist@.segments.len(),
            0 <= k <= n,
            offset == SYNTHETIC_EPOCH_MS + dur_sum(segs0, 0, k as int),
            SYNTHETIC_EPOCH_MS + dur_sum(segs0, 0, n as int) <= i64::MAX,
            offset >= SYNTHETIC_EPOCH_MS,
            forall|j2: int| k <= j2 < n ==> playlist@.segments[j2] == segs0[j2],
            forall|j2: int| 0 <= j2 < k ==> playlist@.segments[j2] == (SegV {
                program_date_time: Some(synthetic_pdt(segs0, j2) as i64),
                ..segs0[j2]
            }),
            playlist@.version == old(playlist)@.version,
            playlist@.target_duration_ms == old(playlist)@.target_duration_ms,
            playlist@.media_sequence == old(playlist)@.media_sequence,
            playlist@.discontinuity_sequence == old(playlist)@.discontinuity_sequence,
            playlist@.end_list == old(playlist)@.end_list,
            playlist@.trailing_tags == old(playlist)@.trailing_tags,
        decreases n - k,
    {
        proof {
            lemma_dur_sum_split(segs0, 0, k as int, n as int);
            lemma_dur_sum_nonneg(segs0, k as int, n as int);
            lemma_dur_sum_snoc(segs0, 0, k as int);
            assert(playlist@.segments[k as int] == playlist.segments@[k as int]@);
        }
        let d = playlist.segments[k].duration_ms;
        assert(playlist.segments@[k as int]@ == segs0[k as int]);
        let ghost before = playlist@.segments;
        playlist.segments[k].program_date_time = Some(offset as i64);
        proof {
            assert(playlist@.segments =~= before.update(
                k as int,
                SegV { program_date_time: Some(offset as i64), ..before[k as int] },
            ));
            assert(offset == synthetic_pdt(segs0, k as int));
        }
        offset = offset + d as i128;
        k += 1;
    }
}

/// Inject an `EXT-X-DATERANGE` interstitial for every ad break whose
/// start index is valid and has a representable program-date-time, then
/// strip all CUE tags.  The result is exactly the specification fold
/// followed by the CUE strip; in particular no segment keeps a CUE tag.
pub fn inject_interstitials(
    playlist: &mut MediaPlaylist,
    ad_breaks: &Vec<AdBreak>,
    session_id: &str,
    base_url: &str,
)
    ensures
        final(playlist)@.version == old(playlist)@.version,
        final(playlist)@.target_duration_ms == old(playlist)@.target_duration_ms,
        final(playlist)@.media_sequence == old(playlist)@.media_sequence,
        final(playlist)@.discontinuity_sequence == old(playlist)@.discontinuity_sequence,
        final(playlist)@.end_list == old(playlist)@.end_list,
        final(playlist)@.trailing_tags == old(playlist)@.trailing_tags,
        final(playlist)@.segments == strip_cue(
            inject_fold(
                old(playlist)@.segments,
                breaks_model(ad_breaks@),
                0,
                session_id@,
                base_url@,
            ),
        ),
        forall|j: int, t: int|
            0 <= j < final(playlist)@.segments.len() && 0 <= t < (#[trigger] final(playlist)@.segments[j]).unknown_tags.len() ==> !cue_tag_name(
                #[trigger] final(playlist)@.segments[j].unknown_tags[t].tag,
            ),
{
    let ghost segs0 = playlist@.segments;
    let ghost bs = breaks_model(ad_breaks@);
    let nbreaks = ad_breaks.len();

    let mut break_idx: usize = 0;
    while break_idx < nbreaks
        invariant
            nbreaks == bs.len(),
            bs == breaks_model(ad_breaks@),
            0 <= break_idx <= nbreaks,
            inject_fold(segs0, bs, 0, session_id@, base_url@) == inject_fold(
                playlist@.segments,
                bs,
                break_idx as int,
                session_id@,
                base_url@,
            ),
            playlist@.version == old(playlist)@.version,
            playlist@.target_duration_ms == old(playlist)@.target_duration_ms,
            playlist@.media_sequence == old(playlist)@.media_sequence,
            playlist@.discontinuity_sequence == old(playlist)@.discontinuity_sequence,
            playlist@.end_list == old(playlist)@.end_list,
            playlist@.trailing_tags == old(playlist)@.trailing_tags,
        decreases nbreaks - break_idx,
    {
        let ghost cur = playlist@.segments;
        let ab = &ad_breaks[break_idx];
        proof {
            assert(bs[break_idx as int] == crate::hls::cue::break_model(
                ad_breaks@[break_idx as int],
            ));
        }
        let start_index = ab.start_index;
        if start_index < playlist.segments.len() {
            match compute_pdt_at(playlist, start_index) {
                Some(start_ms) => {
                    let dr = build_break_daterange(
                        break_idx,
                        start_ms,
                        ab.duration_ms,
                        session_id,
                        base_url,
                    );
                    proof {
                        assert(dr@ == break_daterange(
                            break_idx as int,
                            start_ms,
                            ab.duration_ms as nat,
                            session_id@,
                            base_url@,
                        ));
                    }
                    let ghost before = playlist@.segments;
                    playlist.segments[start_index].daterange = Some(dr);
                    proof {
                        assert(playlist@.segments =~= before.update(
                            start_index as int,
                            SegV { daterange: Some(dr@), ..before[start_index as int] },
                        ));
                        assert(playlist@.segments =~= apply_break(
                            cur,
                            bs[break_idx as int],
                            break_idx as int,
                            session_id@,
                            base_url@,
                        ));
                    }
                },
                None => {
                    proof {
                        assert(playlist@.segments == apply_break(
                            cur,
                            bs[break_idx as int],
                            break_idx as int,
                            session_id@,
                            base_url@,
                        ));
                    }
                },
            }
        } else {
            proof {
                assert(playlist@.segments == apply_break(
                    cur,
                    bs[break_idx as int],
                    break_idx as int,
                    session_id@,
                    base_url@,
                ));
            }
        }
        break_idx += 1;
    }

    remove_cue_tags(playlist);
}

/// Build the DateRange for one break.
fn build_break_daterange(
    break_idx: usize,
    start_ms: i64,
    duration_ms: u64,
    session_id: &str,
    base_url: &str,
) -> (r: DateRange)
    ensures
        r@ == break_daterange(
            break_idx as int,
            start_ms,
            duration_ms as nat,
            session_id@,
            base_url@,
        ),
{
    let mut id = "ad-break-".to_owned();
    id.append(usize_to_string(break_idx).as_str());

    let mut asset_list = base_url.to_owned();
    asset_list.append("/stitch/");
    asset_list.append(session_id);
    asset_list.append("/asset-list/");
    asset_list.append(usize_to_string(break_idx).as_str());
    asset_list.append("?dur=");
    asset_list.append(ms_to_dec_string(duration_ms).as_str());

    let mut x_attrs: Vec<XAttr> = Vec::new();
    x_attrs.push(XAttr { key: "X-ASSET-LIST".to_owned(), value: asset_list, quoted: true });
    x_attrs.push(XAttr { key: "X-RESUME-OFFSET".to_owned(), value: "0".to_owned(), quoted: false });
    x_attrs.push(
        XAttr { key: "X-RESTRICT".to_owned(), value: "SKIP,JUMP".to_owned(), quoted: true },
    );

    let r = DateRange {
        id,
        class: Some("com.apple.hls.interstitial".to_owned()),
        start_date: format_rfc3339_ms(start_ms),
        end_date: None,
        duration_ms: Some(duration_ms),
        planned_duration_ms: None,
        x_attrs,
        end_on_next: false,
    };
    proof {
        assert(r@.x_attrs =~= break_daterange(
            break_idx as int,
            start_ms,
            duration_ms as nat,
            session_id@,
            base_url@,
        ).x_attrs);
    }
    r
}

/// Remove the CUE tags from every segment.
fn remove_cue_tags(playlist: &mut MediaPlaylist)
    ensures
        final(playlist)@.version == old(playlist)@.version,
        final(playlist)@.target_duration_ms == old(playlist)@.target_duration_ms,
        final(playlist)@.media_sequence == old(playlist)@.media_sequence,
        final(playlist)@.discontinuity_sequence == old(playlist)@.discontinuity_sequence,
        final(playlist)@.end_list == old(playlist)@.end_list,
        final(playlist)@.trailing_tags == old(playlist)@.trailing_tags,
        final(playlist)@.segments == strip_cue(old(playlist)@.segments),
        forall|j: int, t: int|
            0 <= j < final(playlist)@.segments.len() && 0 <= t < (#[trigger] final(playlist)@.segments[j]).unknown_tags.len() ==> !cue_tag_name(
                #[trigger] final(playlist)@.segments[j].unknown_tags[t].tag,
            ),
{
    let ghost segs0 = playlist@.segments;
    let n = playlist.segments.len();
    let mut i: usize = 0;
    while i < n
        invariant
            n == segs0.len(),
            n == playlist@.segments.len(),
            0 <= i <= n,
            forall|j: int| i <= j < n ==> playlist@.segments[j] == segs0[j],
            forall|j: int| 0 <= j < i ==> playlist@.segments[j] == strip_cue_seg(segs0[j]),
            playlist@.version == old(playlist)@.version,
            playlist@.target_duration_ms == old(playlist)@.target_duration_ms,
            playlist@.media_sequence == old(playlist)@.media_sequence,
            playlist@.discontinuity_sequence == old(playlist)@.discontinuity_sequence,
            playlist@.end_list == old(playlist)@.end_list,
            playlist@.trailing_tags == old(playlist)@.trailing_tags,
        decreases n - i,
    {
        let ghost tags0 = playlist@.segments[i as int].unknown_tags;
        let m = playlist.segments[i].unknown_tags.len();
        let mut kept: Vec<ExtTag> = Vec::new();
        assert(tags0.subrange(0, 0) =~= Seq::<ExtTagV>::empty());
        assert(Seq::<ExtTagV>::empty().filter(|t: ExtTagV| !cue_tag_name(t.tag)) =~= Seq::<
            ExtTagV,
        >::empty()) by {
            reveal(Seq::filter);
        }
        let mut t: usize = 0;
        while t < m
            invariant
                i < playlist@.segments.len(),
                m == tags0.len(),
                tags0 == playlist@.segments[i as int].unknown_tags,
                playlist@.segments[i as int] == segs0[i as int],
                0 <= t <= m,
                kept@.map_values(|x: ExtTag| x@) == tags0.subrange(0, t as int).filter(
                    |x: ExtTagV| !cue_tag_name(x.tag),
                ),
            decreases m - t,
        {
            proof {
                reveal(Seq::filter);
                assert(tags0.subrange(0, t + 1).drop_last() =~= tags0.subrange(0, t as int));
                assert(tags0.subrange(0, t + 1).last() == tags0[t as int]);
                assert(tags0[t as int] == playlist.segments@[i as int].unknown_tags@[t as int]@);
            }
            let tag = &playlist.segments[i].unknown_tags[t];
            let ghost kept0 = kept@;
            if !is_cue_tag(tag.tag.as_str()) {
                kept.push(tag.duplicate_tag());
                proof {
                    assert(kept@.map_values(|x: ExtTag| x@) =~= kept0.map_values(
                        |x: ExtTag| x@,
                    ).push(tags0[t as int]));
                }
            }
            t += 1;
        }
        proof {
            assert(tags0.subrange(0, m as int) =~= tags0);
        }
        let ghost before = playlist@.segments;
        playlist.segments[i].unknown_tags = kept;
        proof {
            assert(playlist@.segments =~= before.update(
                i as int,
                SegV { unknown_tags: kept@.map_values(|x: ExtTag| x@), ..before[i as int] },
            ));
            assert(playlist@.segments[i as int] == strip_cue_seg(segs0[i as int]));
        }
        i += 1;
    }
    proof {
        assert(playlist@.segments =~= strip_cue(segs0));
        assert forall|j: int, t2: int|
            0 <= j < playlist@.segments.len() && 0 <= t2 < (#[trigger] playlist@.segments[j])
                .unknown_tags.len() implies !cue_tag_name(
            #[trigger] playlist@.segments[j].unknown_tags[t2].tag,
        ) by {
            assert(playlist@.segments[j].unknown_tags == segs0[j].unknown_tags.filter(
                |x: ExtTagV| !cue_tag_name(x.tag),
            ));
            segs0[j].unknown_tags.lemma_filter_pred(|x: ExtTagV| !cue_tag_name(x.tag), t2);
        }
    }
}

} // verus!
