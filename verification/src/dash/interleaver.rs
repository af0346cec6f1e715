//! DASH interleaving: insert ad Periods after signal Periods, mirroring
//! the content track structure.
//!
//! Breaks are applied in reverse index order, so each insertion leaves
//! the indices of the breaks not yet processed unchanged.

use vstd::prelude::*;
use crate::ad::interleaver::ad_seg_uri;
use crate::ad::provider::{AdSegment, AdSegmentV};
use crate::dash::cue::{DashAdBreak, DashAdBreakV};
use crate::dash::model::{
    AdaptationSet, AdaptationSetV, Mpd, MpdV, Period, PeriodV, Representation, RepresentationV,
    SegmentList, SegmentListV, SegmentUrl, SegmentUrlV,
};
use crate::num::{dec_str, ms_dec_str, ms_to_dec_string, usize_to_string};

verus! {

/// Total duration of an ad list in milliseconds, saturating at the
/// largest representable value.
pub open spec fn ads_total_ms(ads: Seq<AdSegmentV>) -> u64 {
    if ads_sum(ads) > u64::MAX {
        u64::MAX
    } else {
        ads_sum(ads) as u64
    }
}

/// Unbounded total duration of an ad list.
pub open spec fn ads_sum(ads: Seq<AdSegmentV>) -> int
    decreases ads.len(),
{
    if ads.len() == 0 {
        0
    } else {
        ads_sum(ads.drop_last()) + ads.last().duration_ms
    }
}

/// The shared SegmentURL list of an ad Period.
pub open spec fn seg_urls_v(idx: int, cnt: int, sid: Seq<char>, base: Seq<char>) -> Seq<
    SegmentUrlV,
> {
    if cnt <= 0 {
        Seq::empty()
    } else {
        Seq::new(cnt as nat, |j: int| SegmentUrlV { media: Some(ad_seg_uri(base, sid, idx, j)) })
    }
}

/// An ad AdaptationSet mirroring one content AdaptationSet: the same
/// content type, MIME type and language, with a single Representation
/// carrying the shared SegmentList and the content's leading bandwidth
/// (500000 by default).
pub open spec fn mirror_as(
    cas: AdaptationSetV,
    idx: int,
    as_idx: int,
    urls: Seq<SegmentUrlV>,
) -> AdaptationSetV {
    AdaptationSetV {
        id: None,
        content_type: cas.content_type,
        mime_type: cas.mime_type,
        lang: cas.lang,
        base_urls: Seq::empty(),
        segment_template: None,
        representations: seq![
            RepresentationV {
                id: Some("ad-rep-"@ + dec_str(idx as nat) + "-"@ + dec_str(as_idx as nat)),
                bandwidth: Some(
                    match cas.representations {
                        reps => if reps.len() > 0 {
                            match reps[0].bandwidth {
                                Some(b) => b,
                                None => 500000u64,
                            }
                        } else {
                            500000u64
                        },
                    },
                ),
                codecs: None,
                base_urls: Seq::empty(),
                segment_template: None,
                segment_list: Some(SegmentListV { segment_urls: urls }),
            },
        ],
    }
}

/// The fallback video AdaptationSet used when the content Period has
/// none to mirror.
pub open spec fn fallback_as(idx: int, urls: Seq<SegmentUrlV>) -> AdaptationSetV {
    AdaptationSetV {
        id: None,
        content_type: Some("video"@),
        mime_type: Some("video/mp4"@),
        lang: None,
        base_urls: Seq::empty(),
        segment_template: None,
        representations: seq![
            RepresentationV {
                id: Some("ad-rep-"@ + dec_str(idx as nat)),
                bandwidth: Some(500000u64),
                codecs: None,
                base_urls: Seq::empty(),
                segment_template: None,
                segment_list: Some(SegmentListV { segment_urls: urls }),
            },
        ],
    }
}

/// The ad Period of break `idx`: one SegmentURL per ad, the content
/// Period's track structure mirrored (or the fallback), and the total
/// ad duration.
pub open spec fn ad_period_v(
    idx: int,
    ads: Seq<AdSegmentV>,
    content: Seq<AdaptationSetV>,
    sid: Seq<char>,
    base: Seq<char>,
) -> PeriodV {
    let urls = seg_urls_v(idx, ads.len() as int, sid, base);
    PeriodV {
        id: Some("ad-"@ + dec_str(idx as nat)),
        duration: Some("PT"@ + ms_dec_str(ads_total_ms(ads) as nat) + "S"@),
        base_urls: Seq::empty(),
        adaptations: if content.len() == 0 {
            seq![fallback_as(idx, urls)]
        } else {
            Seq::new(content.len(), |a: int| mirror_as(content[a], idx, a, urls))
        },
        event_streams: Seq::empty(),
    }
}

/// Insert a period at `pos`, appending when out of range.
pub open spec fn mpd_insert(ps: Seq<PeriodV>, p: PeriodV, pos: int) -> Seq<PeriodV> {
    if 0 <= pos <= ps.len() {
        ps.insert(pos, p)
    } else {
        ps.push(p)
    }
}

/// One break applied: with no ads the periods are unchanged; otherwise
/// the ad Period mirroring the signal Period's tracks is inserted right
/// after it.
pub open spec fn apply_dash_break(
    ps: Seq<PeriodV>,
    b: DashAdBreakV,
    idx: int,
    ads: Seq<AdSegmentV>,
    sid: Seq<char>,
    base: Seq<char>,
) -> Seq<PeriodV> {
    if ads.len() == 0 {
        ps
    } else {
        let content: Seq<AdaptationSetV> = if 0 <= b.period_index < ps.len() {
            ps[b.period_index].adaptations
        } else {
            Seq::empty()
        };
        mpd_insert(ps, ad_period_v(idx, ads, content, sid, base), b.period_index + 1)
    }
}

/// Breaks `k, k+1, …` applied in reverse order (the highest index
/// first).
pub open spec fn interleave_mpd_fold(
    ps: Seq<PeriodV>,
    bs: Seq<DashAdBreakV>,
    ads: Seq<Seq<AdSegmentV>>,
    sid: Seq<char>,
    base: Seq<char>,
    k: int,
) -> Seq<PeriodV>
    decreases bs.len() - k,
        when k >= 0
{
    if !(0 <= k < bs.len()) {
        ps
    } else {
        apply_dash_break(
            interleave_mpd_fold(ps, bs, ads, sid, base, k + 1),
            bs[k],
            k,
            ads[k],
            sid,
            base,
        )
    }
}

/// Interleave ad Periods into an MPD at the detected breaks.
///
/// With matching, non-empty break and ad lists the period list becomes
/// exactly the reverse-order fold of the insertions; with no breaks or
/// mismatched lengths the MPD is unchanged.  Non-period fields are
/// never touched.
pub fn interleave_ads_mpd(
    mpd: Mpd,
    ad_breaks: &Vec<DashAdBreak>,
    ad_segments_per_break: &Vec<Vec<AdSegment>>,
    session_id: &str,
    base_url: &str,
) -> (r: Mpd)
    ensures
        r@.mpd_type == mpd@.mpd_type,
        r@.media_presentation_duration == mpd@.media_presentation_duration,
        r@.min_buffer_time == mpd@.min_buffer_time,
        r@.profiles == mpd@.profiles,
        r@.base_urls == mpd@.base_urls,
        ad_breaks@.len() == 0 || ad_breaks@.len() != ad_segments_per_break@.len() ==> r@ == mpd@,
        ad_breaks@.len() > 0 && ad_breaks@.len() == ad_segments_per_break@.len() ==> r@.periods
            == interleave_mpd_fold(
            mpd@.periods,
            ad_breaks@.map_values(|b: DashAdBreak| b@),
            ad_segments_per_break@.map_values(
                |v: Vec<AdSegment>| v@.map_values(|a: AdSegment| a@),
            ),
            session_id@,
            base_url@,
            0,
        ),
{
    if ad_breaks.len() == 0 {
        return mpd;
    }
    if ad_breaks.len() != ad_segments_per_break.len() {
        return mpd;
    }
    let ghost ps0 = mpd@.periods;
    let ghost bs = ad_breaks@.map_values(|b: DashAdBreak| b@);
    let ghost adsv = ad_segments_per_break@.map_values(
        |v: Vec<AdSegment>| v@.map_values(|a: AdSegment| a@),
    );
    let ghost m0 = mpd@;
    let mut mpd = mpd;
    let nbreaks = ad_breaks.len();

    let mut remaining: usize = nbreaks;
    while remaining > 0
        invariant
            nbreaks == bs.len(),
            bs == ad_breaks@.map_values(|b: DashAdBreak| b@),
            adsv == ad_segments_per_break@.map_values(
                |v: Vec<AdSegment>| v@.map_values(|a: AdSegment| a@),
            ),
            adsv.len() == nbreaks,
            0 <= remaining <= nbreaks,
            mpd@.periods == interleave_mpd_fold(ps0, bs, adsv, session_id@, base_url@,
                remaining as int),
            mpd@ == (MpdV { periods: mpd@.periods, ..m0 }),
        decreases remaining,
    {
        let break_idx = remaining - 1;
        let ab = &ad_breaks[break_idx];
        let ads = &ad_segments_per_break[break_idx];
        proof {
            assert(bs[break_idx as int] == ad_breaks@[break_idx as int]@);
            assert(adsv[break_idx as int] == ad_segments_per_break@[break_idx as int]@.map_values(
                |a: AdSegment| a@,
            ));
        }
        if ads.len() > 0 {
            let ghost cur = mpd@.periods;
            // gather the content Period's adaptation sets to mirror
            let pidx = ab.period_index;
            let ad_period: Period = if pidx < mpd.periods.len() {
                proof {
                    assert(mpd@.periods[pidx as int] == mpd.periods@[pidx as int]@);
                }
                build_ad_period(
                    ads,
                    break_idx,
                    session_id,
                    base_url,
                    Some(&mpd.periods[pidx].adaptations),
                )
            } else {
                build_ad_period(ads, break_idx, session_id, base_url, None)
            };
            let insert_position = if pidx < usize::MAX && pidx + 1 <= mpd.periods.len() {
                pidx + 1
            } else {
                mpd.periods.len()
            };
            let ghost before = mpd@.periods;
            if insert_position < mpd.periods.len() {
                mpd.periods.insert(insert_position, ad_period);
                proof {
                    assert(mpd@.periods =~= before.insert(insert_position as int, ad_period@));
                }
            } else {
                mpd.periods.push(ad_period);
                proof {
                    assert(mpd@.periods =~= before.push(ad_period@));
                    if (pidx as int) + 1 <= before.len() {
                        assert(before.insert(before.len() as int, ad_period@) =~= before.push(
                            ad_period@,
                        ));
                    }
                }
            }
            proof {
                assert(mpd@.periods =~= apply_dash_break(
                    cur,
                    bs[break_idx as int],
                    break_idx as int,
                    adsv[break_idx as int],
                    session_id@,
                    base_url@,
                ));
            }
        } else {
            proof {
                assert(mpd@.periods == apply_dash_break(
                    mpd@.periods,
                    bs[break_idx as int],
                    break_idx as int,
                    adsv[break_idx as int],
                    session_id@,
                    base_url@,
                ));
            }
        }
        remaining -= 1;
    }
    mpd
}

/// Build the shared SegmentURL list of break `idx`.
fn make_seg_urls(idx: usize, cnt: usize, session_id: &str, base_url: &str) -> (r: Vec<SegmentUrl>)
    ensures
        r@.map_values(|u: SegmentUrl| u@) == seg_urls_v(
            idx as int,
            cnt as int,
            session_id@,
            base_url@,
        ),
{
    let mut out: Vec<SegmentUrl> = Vec::new();
    let mut j: usize = 0;
    while j < cnt
        invariant
            0 <= j <= cnt,
            out@.len() == j,
            forall|x: int| 0 <= x < j ==> (#[trigger] out@[x])@.media == Some(
                ad_seg_uri(base_url@, session_id@, idx as int, x),
            ),
        decreases cnt - j,
    {
        let mut media = base_url.to_owned();
        media.append("/stitch/");
        media.append(session_id);
        media.append("/ad/break-");
        media.append(usize_to_string(idx).as_str());
        media.append("-seg-");
        media.append(usize_to_string(j).as_str());
        media.append(".ts");
        out.push(SegmentUrl { media: Some(media) });
        j += 1;
    }
    proof {
        assert(out@.map_values(|u: SegmentUrl| u@) =~= seg_urls_v(
            idx as int,
            cnt as int,
            session_id@,
            base_url@,
        ));
    }
    out
}

/// Build the ad Period of one break.
fn build_ad_period(
    ads: &Vec<AdSegment>,
    break_idx: usize,
    session_id: &str,
    base_url: &str,
    content: Option<&Vec<AdaptationSet>>,
) -> (r: Period)
    ensures
        r@ == ad_period_v(
            break_idx as int,
            ads@.map_values(|a: AdSegment| a@),
            match content {
                Some(c) => c@.map_values(|x: AdaptationSet| x@),
                None => Seq::empty(),
            },
            session_id@,
            base_url@,
        ),
{
    let ghost adsv = ads@.map_values(|a: AdSegment| a@);
    // total duration, saturating
    let n = ads.len();
    let mut total_wide: u128 = 0;
    let mut i: usize = 0;
    proof {
        assert(adsv.subrange(0, 0) =~= Seq::<AdSegmentV>::empty());
    }
    while i < n
        invariant
            n == adsv.len(),
            adsv == ads@.map_values(|a: AdSegment| a@),
            0 <= i <= n,
            total_wide == ads_sum(adsv.subrange(0, i as int)),
            total_wide <= (i as int) * (u64::MAX as int),
        decreases n - i,
    {
        proof {
            assert(adsv[i as int] == ads@[i as int]@);
            assert(adsv.subrange(0, i + 1).drop_last() =~= adsv.subrange(0, i as int));
            assert(adsv.subrange(0, i + 1).last() == adsv[i as int]);
            assert((i as int) * (u64::MAX as int) + u64::MAX <= (i + 1) * (u64::MAX as int))
                by (nonlinear_arith);
            assert((i as int) * (u64::MAX as int) < u128::MAX - u64::MAX) by (nonlinear_arith)
                requires
                    0 <= i < usize::MAX,
            ;
        }
        total_wide = total_wide + ads[i].duration_ms as u128;
        i += 1;
    }
    proof {
        assert(adsv.subrange(0, n as int) =~= adsv);
    }
    let total_ms: u64 = if total_wide > u64::MAX as u128 {
        u64::MAX
    } else {
        total_wide as u64
    };
    assert(total_ms == ads_total_ms(adsv));

    let mut duration = "PT".to_owned();
    duration.append(ms_to_dec_string(total_ms).as_str());
    duration.append("S");

    let mut id = "ad-".to_owned();
    id.append(usize_to_string(break_idx).as_str());

    let mut adaptations: Vec<AdaptationSet> = Vec::new();
    match content {
        Some(cas) => {
            if cas.len() == 0 {
                adaptations.push(make_fallback_as(break_idx, ads.len(), session_id, base_url));
                proof {
                    assert(adaptations@.map_values(|x: AdaptationSet| x@) =~~= seq![
                        fallback_as(
                            break_idx as int,
                            seg_urls_v(break_idx as int, adsv.len() as int, session_id@, base_url@),
                        ),
                    ]);
                }
            } else {
                let ghost cv = cas@.map_values(|x: AdaptationSet| x@);
                let m = cas.len();
                let mut a: usize = 0;
                while a < m
                    invariant
                        m == cv.len(),
                        cv == cas@.map_values(|x: AdaptationSet| x@),
                        adsv == ads@.map_values(|x: AdSegment| x@),
                        0 <= a <= m,
                        adaptations@.len() == a,
                        forall|x: int| 0 <= x < a ==> (#[trigger] adaptations@[x])@ == mirror_as(
                            cv[x],
                            break_idx as int,
                            x,
                            seg_urls_v(break_idx as int, adsv.len() as int, session_id@, base_url@),
                        ),
                    decreases m - a,
                {
                    proof {
                        assert(cv[a as int] == cas@[a as int]@);
                    }
                    let content_as = &cas[a];
                    let bw: u64 = if content_as.representations.len() > 0 {
                        proof {
                            assert(cv[a as int].representations[0]
                                == cas@[a as int].representations@[0]@);
                        }
                        match cas[a].representations[0].bandwidth {
                            Some(b) => b,
                            None => 500000,
                        }
                    } else {
                        500000
                    };
                    let mut rep_id = "ad-rep-".to_owned();
                    rep_id.append(usize_to_string(break_idx).as_str());
                    rep_id.append("-");
                    rep_id.append(usize_to_string(a).as_str());
                    let representation = Representation {
                        id: Some(rep_id),
                        bandwidth: Some(bw),
                        codecs: None,
                        base_urls: Vec::new(),
                        segment_template: None,
                        segment_list: Some(
                            SegmentList {
                                segment_urls: make_seg_urls(
                                    break_idx,
                                    ads.len(),
                                    session_id,
                                    base_url,
                                ),
                            },
                        ),
                    };
                    let mut reps: Vec<Representation> = Vec::new();
                    reps.push(representation);
                    let new_as = AdaptationSet {
                        id: None,
                        content_type: clone_opt(&content_as.content_type),
                        mime_type: clone_opt(&content_as.mime_type),
                        lang: clone_opt(&content_as.lang),
                        base_urls: Vec::new(),
                        segment_template: None,
                        representations: reps,
                    };
                    proof {
                        assert(new_as@.representations =~~= mirror_as(
                            cv[a as int],
                            break_idx as int,
                            a as int,
                            seg_urls_v(break_idx as int, adsv.len() as int, session_id@, base_url@),
                        ).representations);
                        assert(new_as@.base_urls =~= Seq::<Seq<char>>::empty());
                    }
                    adaptations.push(new_as);
                    a += 1;
                }
                proof {
                    assert(adaptations@.map_values(|x: AdaptationSet| x@) =~~= Seq::new(
                        cv.len(),
                        |x: int| mirror_as(
                            cv[x],
                            break_idx as int,
                            x,
                            seg_urls_v(break_idx as int, adsv.len() as int, session_id@, base_url@),
                        ),
                    ));
                }
            }
        },
        None => {
            adaptations.push(make_fallback_as(break_idx, ads.len(), session_id, base_url));
            proof {
                assert(adaptations@.map_values(|x: AdaptationSet| x@) =~~= seq![
                    fallback_as(
                        break_idx as int,
                        seg_urls_v(break_idx as int, adsv.len() as int, session_id@, base_url@),
                    ),
                ]);
            }
        },
    }

    let r = Period {
        id: Some(id),
        duration: Some(duration),
        base_urls: Vec::new(),
        adaptations,
        event_streams: Vec::new(),
    };
    proof {
        assert(r@.base_urls =~= Seq::<Seq<char>>::empty());
        assert(r@.event_streams =~= Seq::<crate::dash::model::EventStreamV>::empty());
    }
    r
}

/// Clone an optional string.
fn clone_opt(s: &Option<String>) -> (r: Option<String>)
    ensures
        (match r {
            Some(v) => Some(v@),
            None => None,
        }) == (match s {
            Some(v) => Some(v@),
            None => None,
        }),
{
    match s {
        Some(v) => Some(v.clone()),
        None => None,
    }
}

/// Build the fallback video AdaptationSet.
fn make_fallback_as(break_idx: usize, cnt: usize, session_id: &str, base_url: &str) -> (r:
    AdaptationSet)
    ensures
        r@ == fallback_as(
            break_idx as int,
            seg_urls_v(break_idx as int, cnt as int, session_id@, base_url@),
        ),
{
    let mut rep_id = "ad-rep-".to_owned();
    rep_id.append(usize_to_string(break_idx).as_str());
    let representation = Representation {
        id: Some(rep_id),
        bandwidth: Some(500000),
        codecs: None,
        base_urls: Vec::new(),
        segment_template: None,
        segment_list: Some(
            SegmentList { segment_urls: make_seg_urls(break_idx, cnt, session_id, base_url) },
        ),
    };
    let mut reps: Vec<Representation> = Vec::new();
    reps.push(representation);
    let r = AdaptationSet {
        id: None,
        content_type: Some("video".to_owned()),
        mime_type: Some("video/mp4".to_owned()),
        lang: None,
        base_urls: Vec::new(),
        segment_template: None,
        representations: reps,
    };
    proof {
        assert(r@.representations =~~= fallback_as(
            break_idx as int,
            seg_urls_v(break_idx as int, cnt as int, session_id@, base_url@),
        ).representations);
        assert(r@.base_urls =~= Seq::<Seq<char>>::empty());
    }
    r
}

/// The period-count law: with matching lists, interleaving adds exactly
/// one Period per break that got at least one ad.
pub proof fn lemma_dash_period_count(
    ps: Seq<PeriodV>,
    bs: Seq<DashAdBreakV>,
    ads: Seq<Seq<AdSegmentV>>,
    sid: Seq<char>,
    base: Seq<char>,
    k: int,
)
    requires
        0 <= k <= bs.len(),
        ads.len() == bs.len(),
    ensures
        interleave_mpd_fold(ps, bs, ads, sid, base, k).len() == ps.len() + nonempty_from(
            ads,
            k,
        ),
    decreases bs.len() - k,
{
    if k < bs.len() {
        lemma_dash_period_count(ps, bs, ads, sid, base, k + 1);
    }
}

/// Number of breaks from `k` on that received at least one ad.
pub open spec fn nonempty_from(ads: Seq<Seq<AdSegmentV>>, k: int) -> int
    decreases ads.len() - k,
        when k >= 0
{
    if !(0 <= k < ads.len()) {
        0
    } else {
        (if ads[k].len() > 0 {
            1int
        } else {
            0int
        }) + nonempty_from(ads, k + 1)
    }
}

/// The track-mirroring law: an ad Period built against a non-empty
/// content track list has exactly one AdaptationSet per content
/// AdaptationSet, with the same content type, MIME type and language;
/// against an empty list it has the single video/mp4 fallback.  Every
/// AdaptationSet carries the same shared SegmentURL list, one URL per
/// ad.
pub proof fn lemma_dash_ad_period_mirrors(
    idx: int,
    ads: Seq<AdSegmentV>,
    content: Seq<AdaptationSetV>,
    sid: Seq<char>,
    base: Seq<char>,
)
    ensures
        content.len() > 0 ==> {
            &&& ad_period_v(idx, ads, content, sid, base).adaptations.len() == content.len()
            &&& forall|a: int| 0 <= a < content.len() ==> {
                let m = #[trigger] ad_period_v(idx, ads, content, sid, base).adaptations[a];
                m.content_type == content[a].content_type && m.mime_type == content[a].mime_type
                    && m.lang == content[a].lang && m.representations.len() == 1
                    && m.representations[0].segment_list == Some(
                    SegmentListV {
                        segment_urls: seg_urls_v(idx, ads.len() as int, sid, base),
                    },
                )
            }
        },
        content.len() == 0 ==> {
            &&& ad_period_v(idx, ads, content, sid, base).adaptations.len() == 1
            &&& ad_period_v(idx, ads, content, sid, base).adaptations[0].content_type == Some(
                "video"@,
            )
            &&& ad_period_v(idx, ads, content, sid, base).adaptations[0].mime_type == Some(
                "video/mp4"@,
            )
        },
        ad_period_v(idx, ads, content, sid, base).id == Some("ad-"@ + dec_str(idx as nat)),
{
}

} // verus!
