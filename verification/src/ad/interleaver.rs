//! SSAI interleaving: replace content segments inside ad-break windows
//! with synthesized ad segments, bracketing each run with discontinuity
//! flags.
//!
//! The output is specified by a layout plan: a sequence of entries that
//! say, position by position, whether the output holds an original
//! segment (possibly with a forced discontinuity) or a synthesized ad
//! segment.

use vstd::prelude::*;
use crate::ad::provider::{AdSegment, AdSegmentV};
use crate::hls::cue::{AdBreak, breaks_model, wf_breaks};
use crate::hls::model::{MediaPlaylist, MediaSegment, SegV};
use crate::num::{dec_str, u64_to_string, usize_to_string};

verus! {

/// One output position of the interleaved playlist.
pub ghost enum OutSeg {
    /// The original segment at `idx`, with `forced` discontinuity.
    Orig { idx: int, forced: bool },
    /// The `j`th ad segment of break `b`.
    Ad { b: int, j: int },
}

/// Plan entries for the untouched originals in `[a, b)`.
pub open spec fn range_orig(a: int, b: int) -> Seq<OutSeg> {
    if a >= b {
        Seq::empty()
    } else {
        Seq::new((b - a) as nat, |k: int| OutSeg::Orig { idx: a + k, forced: false })
    }
}

/// Plan entries for ads `j, j+1, …, cnt-1` of break `b`.
pub open spec fn run_from(b: int, j: int, cnt: int) -> Seq<OutSeg> {
    if j >= cnt {
        Seq::empty()
    } else {
        Seq::new((cnt - j) as nat, |x: int| OutSeg::Ad { b, j: j + x })
    }
}

/// The layout of the interleaved output from break `k` on, with the
/// read cursor at `cursor` over `len` original segments.
pub open spec fn interleave_layout(
    len: int,
    bs: Seq<(int, int, nat)>,
    counts: Seq<int>,
    k: int,
    cursor: int,
) -> Seq<OutSeg>
    decreases bs.len() - k,
        when k >= 0
{
    if !(0 <= k < bs.len()) {
        range_orig(cursor, len)
    } else {
        let start = bs[k].0;
        let endw = bs[k].1;
        let cnt = counts[k];
        let after_pre: int = if cursor < start {
            start
        } else {
            cursor
        };
        let pre = range_orig(cursor, start);
        if cnt <= 0 {
            pre + interleave_layout(len, bs, counts, k + 1, after_pre)
        } else if endw < len {
            pre + run_from(k, 0, cnt) + seq![OutSeg::Orig { idx: endw, forced: true }]
                + interleave_layout(len, bs, counts, k + 1, endw + 1)
        } else {
            pre + run_from(k, 0, cnt) + interleave_layout(len, bs, counts, k + 1, endw)
        }
    }
}

/// The full plan of an interleave over `len` segments.
pub open spec fn interleave_plan(len: int, bs: Seq<(int, int, nat)>, counts: Seq<int>) -> Seq<
    OutSeg,
> {
    interleave_layout(len, bs, counts, 0, 0)
}

/// The per-break ad counts of the provided ad lists.
pub open spec fn ad_counts(ads: Seq<Seq<AdSegmentV>>) -> Seq<int> {
    ads.map_values(|a: Seq<AdSegmentV>| a.len() as int)
}

/// The proxied URI of ad segment `j` of break `b`.
pub open spec fn ad_seg_uri(base: Seq<char>, sid: Seq<char>, b: int, j: int) -> Seq<char> {
    base + "/stitch/"@ + sid + "/ad/break-"@ + dec_str(b as nat) + "-seg-"@ + dec_str(j as nat)
        + ".ts"@
}

/// The title given to ad segments of break `b`.
pub open spec fn ad_title(b: int) -> Seq<char> {
    "Ad Break "@ + dec_str((b + 1) as nat)
}

/// An output segment realizes the synthesized ad `j` of break `b`.
pub open spec fn is_ad_seg(
    o: SegV,
    a: AdSegmentV,
    base: Seq<char>,
    sid: Seq<char>,
    b: int,
    j: int,
) -> bool {
    &&& o.uri == ad_seg_uri(base, sid, b, j)
    &&& o.duration_ms == a.duration_ms
    &&& o.title == Some(ad_title(b))
    &&& o.discontinuity == (j == 0)
    &&& o.program_date_time is None
    &&& o.daterange is None
    &&& o.unknown_tags.len() == 0
}

/// An output segment realizes one plan entry.
pub open spec fn realizes(
    o: SegV,
    e: OutSeg,
    segs: Seq<SegV>,
    ads: Seq<Seq<AdSegmentV>>,
    base: Seq<char>,
    sid: Seq<char>,
) -> bool {
    match e {
        OutSeg::Orig { idx, forced } => {
            if forced {
                0 <= idx < segs.len() && o == (SegV { discontinuity: true, ..segs[idx] })
            } else {
                0 <= idx < segs.len() && o == segs[idx]
            }
        },
        OutSeg::Ad { b, j } => 0 <= b < ads.len() && 0 <= j < ads[b].len() && is_ad_seg(
            o,
            ads[b][j],
            base,
            sid,
            b,
            j,
        ),
    }
}

/// Every output position realizes its plan entry.
pub open spec fn realizes_plan(
    out: Seq<SegV>,
    plan: Seq<OutSeg>,
    segs: Seq<SegV>,
    ads: Seq<Seq<AdSegmentV>>,
    base: Seq<char>,
    sid: Seq<char>,
) -> bool {
    &&& out.len() == plan.len()
    &&& forall|p: int| 0 <= p < plan.len() ==> realizes(
        out[p],
        #[trigger] plan[p],
        segs,
        ads,
        base,
        sid,
    )
}

/// A leading plain original entry peels off the front of a range.
proof fn lemma_range_orig_head(a: int, b: int)
    requires
        a < b,
    ensures
        range_orig(a, b) =~= seq![OutSeg::Orig { idx: a, forced: false }] + range_orig(a + 1, b),
{
}

/// A leading ad entry peels off the front of a run.
proof fn lemma_run_from_head(b: int, j: int, cnt: int)
    requires
        j < cnt,
    ensures
        run_from(b, j, cnt) =~= seq![OutSeg::Ad { b, j }] + run_from(b, j + 1, cnt),
{
}

/// Build one synthesized media segment for ad `j` of break `b`.
fn create_media_segment_from_ad(
    ad_segment: &AdSegment,
    session_id: &str,
    base_url: &str,
    break_idx: usize,
    segment_idx: usize,
) -> (r: MediaSegment)
    requires
        break_idx < usize::MAX,
    ensures
        r@.uri == ad_seg_uri(base_url@, session_id@, break_idx as int, segment_idx as int),
        r@.duration_ms == ad_segment@.duration_ms,
        r@.title == Some(ad_title(break_idx as int)),
        !r@.discontinuity,
        r@.program_date_time is None,
        r@.daterange is None,
        r@.unknown_tags.len() == 0,
{
    let mut uri = base_url.to_owned();
    uri.append("/stitch/");
    uri.append(session_id);
    uri.append("/ad/break-");
    uri.append(usize_to_string(break_idx).as_str());
    uri.append("-seg-");
    uri.append(usize_to_string(segment_idx).as_str());
    uri.append(".ts");
    let mut title = "Ad Break ".to_owned();
    title.append(usize_to_string(break_idx + 1).as_str());
    MediaSegment {
        uri,
        duration_ms: ad_segment.duration_ms,
        title: Some(title),
        discontinuity: false,
        program_date_time: None,
        daterange: None,
        unknown_tags: Vec::new(),
    }
}

/// Interleave ad segments into a playlist at the detected ad breaks.
///
/// With matching, non-empty break and ad lists the output's segments
/// follow the interleave plan exactly: content up to each break start,
/// then that break's synthesized ads (the first with a discontinuity),
/// the window skipped, and the first following content segment forced
/// discontinuous.  With no breaks, or mismatched list lengths, the
/// playlist is returned unchanged.
#[verifier::rlimit(80)]
pub fn interleave_ads(
    playlist: MediaPlaylist,
    ad_breaks: &Vec<AdBreak>,
    ad_segments_per_break: &Vec<Vec<AdSegment>>,
    session_id: &str,
    base_url: &str,
) -> (r: MediaPlaylist)
    requires
        wf_breaks(breaks_model(ad_breaks@), playlist@.segments.len() as int),
        ad_breaks@.len() < usize::MAX,
    ensures
        r@.version == playlist@.version,
        r@.target_duration_ms == playlist@.target_duration_ms,
        r@.media_sequence == playlist@.media_sequence,
        r@.discontinuity_sequence == playlist@.discontinuity_sequence,
        r@.end_list == playlist@.end_list,
        r@.trailing_tags == playlist@.trailing_tags,
        ad_breaks@.len() == 0 || ad_breaks@.len() != ad_segments_per_break@.len() ==> r@
            == playlist@,
        ad_breaks@.len() > 0 && ad_breaks@.len() == ad_segments_per_break@.len()
            ==> realizes_plan(
            r@.segments,
            interleave_plan(
                playlist@.segments.len() as int,
                breaks_model(ad_breaks@),
                ad_counts(
                    ad_segments_per_break@.map_values(
                        |v: Vec<AdSegment>| v@.map_values(|a: AdSegment| a@),
                    ),
                ),
            ),
            playlist@.segments,
            ad_segments_per_break@.map_values(|v: Vec<AdSegment>| v@.map_values(|a: AdSegment| a@)),
            base_url@,
            session_id@,
        ),
{
    if ad_breaks.len() == 0 {
        return playlist;
    }
    if ad_breaks.len() != ad_segments_per_break.len() {
        return playlist;
    }
    let MediaPlaylist {
        version,
        target_duration_ms,
        media_sequence,
        discontinuity_sequence,
        end_list,
        segments,
        trailing_tags,
    } = playlist;
    let ghost segs0 = segments@.map_values(|s: MediaSegment| s@);
    let ghost bs = breaks_model(ad_breaks@);
    let ghost adsv = ad_segments_per_break@.map_values(
        |v: Vec<AdSegment>| v@.map_values(|a: AdSegment| a@),
    );
    let ghost counts = ad_counts(adsv);
    let ghost plan = interleave_plan(segs0.len() as int, bs, counts);

    let len = segments.len();
    let nbreaks = ad_breaks.len();
    let mut new_segments: Vec<MediaSegment> = Vec::new();
    let mut cursor: usize = 0;
    let ghost mut done: Seq<OutSeg> = Seq::empty();
    proof {
        assert(plan =~= done + interleave_layout(len as int, bs, counts, 0, 0));
    }

    let mut break_idx: usize = 0;
    while break_idx < nbreaks
        invariant
            len == segs0.len(),
            segs0 == segments@.map_values(|s: MediaSegment| s@),
            nbreaks == bs.len(),
            bs == breaks_model(ad_breaks@),
            adsv == ad_segments_per_break@.map_values(
                |v: Vec<AdSegment>| v@.map_values(|a: AdSegment| a@),
            ),
            counts == ad_counts(adsv),
            counts.len() == nbreaks,
            wf_breaks(bs, len as int),
            nbreaks < usize::MAX,
            0 <= break_idx <= nbreaks,
            cursor <= len,
            plan == done + interleave_layout(len as int, bs, counts, break_idx as int,
                cursor as int),
            new_segments@.len() == done.len(),
            forall|p: int| 0 <= p < done.len() ==> realizes(
                new_segments@.map_values(|s: MediaSegment| s@)[p],
                #[trigger] done[p],
                segs0,
                adsv,
                base_url@,
                session_id@,
            ),
        decreases nbreaks - break_idx,
    {
        let ghost layout_here = interleave_layout(
            len as int,
            bs,
            counts,
            break_idx as int,
            cursor as int,
        );
        let ab = &ad_breaks[break_idx];
        proof {
            assert(bs[break_idx as int] == crate::hls::cue::break_model(
                ad_breaks@[break_idx as int],
            ));
        }
        let start = ab.start_index;
        let endw = ab.end_index;

        // content before the break
        while cursor < start && cursor < len
            invariant
                len == segs0.len(),
                segs0 == segments@.map_values(|s: MediaSegment| s@),
                cursor <= len,
                start <= len,
                start == bs[break_idx as int].0,
                0 <= break_idx < bs.len(),
                counts.len() == bs.len(),
                plan == done + interleave_layout(len as int, bs, counts, break_idx as int,
                    cursor as int),
                new_segments@.len() == done.len(),
                forall|p: int| 0 <= p < done.len() ==> realizes(
                    new_segments@.map_values(|s: MediaSegment| s@)[p],
                    #[trigger] done[p],
                    segs0,
                    adsv,
                    base_url@,
                    session_id@,
                ),
            decreases start - cursor,
        {
            let ghost nsv0 = new_segments@.map_values(|s: MediaSegment| s@);
            proof {
                lemma_layout_pre_step(len as int, bs, counts, break_idx as int, cursor as int);
            }
            new_segments.push(segments[cursor].duplicate());
            proof {
                done = done.push(OutSeg::Orig { idx: cursor as int, forced: false });
                assert(new_segments@.map_values(|s: MediaSegment| s@) =~= nsv0.push(
                    segs0[cursor as int],
                ));
            }
            cursor += 1;
        }
        assert(cursor >= start || cursor >= len);
        proof {
            if (cursor as int) < bs[break_idx as int].0 {
                // only possible when start > len, excluded by well-formedness
                assert(bs[break_idx as int].0 <= len as int);
                assert(false);
            }
        }

        let ads = &ad_segments_per_break[break_idx];
        let cnt = ads.len();
        proof {
            assert(adsv[break_idx as int] == ad_segments_per_break@[break_idx as int]@.map_values(
                |a: AdSegment| a@,
            ));
            assert(counts[break_idx as int] == adsv[break_idx as int].len() as int);
        }
        if cnt > 0 {
            // the layout for this break: ads, then a forced content segment
            proof {
                assert(range_orig(cursor as int, bs[break_idx as int].0) =~= Seq::<
                    OutSeg,
                >::empty());
                assert(interleave_layout(len as int, bs, counts, break_idx as int, cursor as int)
                    == {
                    if (endw as int) < len as int {
                        run_from(break_idx as int, 0, cnt as int) + seq![
                            OutSeg::Orig { idx: endw as int, forced: true },
                        ] + interleave_layout(
                            len as int,
                            bs,
                            counts,
                            break_idx as int + 1,
                            endw as int + 1,
                        )
                    } else {
                        run_from(break_idx as int, 0, cnt as int) + interleave_layout(
                            len as int,
                            bs,
                            counts,
                            break_idx as int + 1,
                            endw as int,
                        )
                    }
                }) by {
                    assert(Seq::<OutSeg>::empty() + (run_from(break_idx as int, 0, cnt as int)
                        + seq![OutSeg::Orig { idx: endw as int, forced: true }]
                        + interleave_layout(
                        len as int,
                        bs,
                        counts,
                        break_idx as int + 1,
                        endw as int + 1,
                    )) =~= run_from(break_idx as int, 0, cnt as int) + seq![
                        OutSeg::Orig { idx: endw as int, forced: true },
                    ] + interleave_layout(
                        len as int,
                        bs,
                        counts,
                        break_idx as int + 1,
                        endw as int + 1,
                    ));
                    assert(Seq::<OutSeg>::empty() + (run_from(break_idx as int, 0, cnt as int)
                        + interleave_layout(
                        len as int,
                        bs,
                        counts,
                        break_idx as int + 1,
                        endw as int,
                    )) =~= run_from(break_idx as int, 0, cnt as int) + interleave_layout(
                        len as int,
                        bs,
                        counts,
                        break_idx as int + 1,
                        endw as int,
                    ));
                }
            }

            let mut j: usize = 0;
            while j < cnt
                invariant
                    len == segs0.len(),
                    segs0 == segments@.map_values(|s: MediaSegment| s@),
                    0 <= j <= cnt,
                    0 <= break_idx < bs.len(),
                    break_idx < usize::MAX,
                    adsv.len() == bs.len(),
                    counts == ad_counts(adsv),
                    cnt == adsv[break_idx as int].len(),
                    ads@ == ad_segments_per_break@[break_idx as int]@,
                    cnt == ads@.len(),
                    adsv == ad_segments_per_break@.map_values(
                        |v: Vec<AdSegment>| v@.map_values(|a: AdSegment| a@),
                    ),
                    plan == done + run_from(break_idx as int, j as int, cnt as int) + tail_after(
                        len as int,
                        bs,
                        counts,
                        break_idx as int,
                        endw as int,
                    ),
                    endw == bs[break_idx as int].1,
                    new_segments@.len() == done.len(),
                    forall|p: int| 0 <= p < done.len() ==> realizes(
                        new_segments@.map_values(|s: MediaSegment| s@)[p],
                        #[trigger] done[p],
                        segs0,
                        adsv,
                        base_url@,
                        session_id@,
                    ),
                decreases cnt - j,
            {
                let ghost nsv0 = new_segments@.map_values(|s: MediaSegment| s@);
                let mut seg = create_media_segment_from_ad(
                    &ads[j],
                    session_id,
                    base_url,
                    break_idx,
                    j,
                );
                if j == 0 {
                    seg.discontinuity = true;
                }
                proof {
                    lemma_run_from_head(break_idx as int, j as int, cnt as int);
                    assert((done + run_from(break_idx as int, j as int, cnt as int)) =~= (done
                        + seq![OutSeg::Ad { b: break_idx as int, j: j as int }]) + run_from(
                        break_idx as int,
                        j as int + 1,
                        cnt as int,
                    ));
                    assert((done + seq![OutSeg::Ad { b: break_idx as int, j: j as int }]) =~= done
                        .push(OutSeg::Ad { b: break_idx as int, j: j as int }));
                    assert(adsv[break_idx as int][j as int] == ads@[j as int]@);
                }
                new_segments.push(seg);
                proof {
                    done = done.push(OutSeg::Ad { b: break_idx as int, j: j as int });
                    assert(new_segments@.map_values(|s: MediaSegment| s@) =~= nsv0.push(seg@));
                }
                j += 1;
            }
            proof {
                assert(run_from(break_idx as int, cnt as int, cnt as int) =~= Seq::<
                    OutSeg,
                >::empty());
                assert(done + Seq::<OutSeg>::empty() + tail_after(
                    len as int,
                    bs,
                    counts,
                    break_idx as int,
                    endw as int,
                ) =~= done + tail_after(len as int, bs, counts, break_idx as int, endw as int));
            }

            // skip the window, then force a discontinuity on the next
            // original segment, if one exists
            cursor = endw;
            if cursor < len {
                let ghost nsv0 = new_segments@.map_values(|s: MediaSegment| s@);
                let mut next = segments[cursor].duplicate();
                next.discontinuity = true;
                proof {
                    assert(tail_after(len as int, bs, counts, break_idx as int, endw as int)
                        =~= seq![OutSeg::Orig { idx: endw as int, forced: true }]
                        + interleave_layout(
                        len as int,
                        bs,
                        counts,
                        break_idx as int + 1,
                        endw as int + 1,
                    ));
                    assert(done + tail_after(len as int, bs, counts, break_idx as int, endw as int)
                        =~= done.push(OutSeg::Orig { idx: endw as int, forced: true })
                        + interleave_layout(
                        len as int,
                        bs,
                        counts,
                        break_idx as int + 1,
                        endw as int + 1,
                    ));
                    assert(next@ == (SegV { discontinuity: true, ..segs0[cursor as int] }));
                }
                new_segments.push(next);
                proof {
                    done = done.push(OutSeg::Orig { idx: endw as int, forced: true });
                    assert(new_segments@.map_values(|s: MediaSegment| s@) =~= nsv0.push(
                        (SegV { discontinuity: true, ..segs0[cursor as int] }),
                    ));
                }
                cursor += 1;
            } else {
                proof {
                    assert(tail_after(len as int, bs, counts, break_idx as int, endw as int)
                        == interleave_layout(len as int, bs, counts, break_idx as int + 1,
                            endw as int));
                }
            }
        } else {
            proof {
                assert(range_orig(cursor as int, bs[break_idx as int].0) =~= Seq::<
                    OutSeg,
                >::empty());
                assert(done + (Seq::<OutSeg>::empty() + interleave_layout(
                    len as int,
                    bs,
                    counts,
                    break_idx as int + 1,
                    cursor as int,
                )) =~= done + interleave_layout(
                    len as int,
                    bs,
                    counts,
                    break_idx as int + 1,
                    cursor as int,
                ));
            }
        }
        break_idx += 1;
    }

    // remaining content after the last break
    proof {
        assert(interleave_layout(len as int, bs, counts, nbreaks as int, cursor as int)
            == range_orig(cursor as int, len as int));
    }
    while cursor < len
        invariant
            len == segs0.len(),
            segs0 == segments@.map_values(|s: MediaSegment| s@),
            cursor <= len,
            plan == done + range_orig(cursor as int, len as int),
            new_segments@.len() == done.len(),
            forall|p: int| 0 <= p < done.len() ==> realizes(
                new_segments@.map_values(|s: MediaSegment| s@)[p],
                #[trigger] done[p],
                segs0,
                adsv,
                base_url@,
                session_id@,
            ),
        decreases len - cursor,
    {
        let ghost nsv0 = new_segments@.map_values(|s: MediaSegment| s@);
        proof {
            lemma_range_orig_head(cursor as int, len as int);
            assert(done + range_orig(cursor as int, len as int) =~= done.push(
                OutSeg::Orig { idx: cursor as int, forced: false },
            ) + range_orig(cursor as int + 1, len as int));
        }
        new_segments.push(segments[cursor].duplicate());
        proof {
            done = done.push(OutSeg::Orig { idx: cursor as int, forced: false });
            assert(new_segments@.map_values(|s: MediaSegment| s@) =~= nsv0.push(
                segs0[cursor as int],
            ));
        }
        cursor += 1;
    }
    proof {
        assert(range_orig(cursor as int, len as int) =~= Seq::<OutSeg>::empty());
        assert(plan =~= done);
    }

    MediaPlaylist {
        version,
        target_duration_ms,
        media_sequence,
        discontinuity_sequence,
        end_list,
        segments: new_segments,
        trailing_tags,
    }
}

/// The plan tail after a non-empty break's ad run: the forced content
/// segment when one follows, then the rest of the layout.
pub open spec fn tail_after(
    len: int,
    bs: Seq<(int, int, nat)>,
    counts: Seq<int>,
    k: int,
    endw: int,
) -> Seq<OutSeg> {
    if endw < len {
        seq![OutSeg::Orig { idx: endw, forced: true }] + interleave_layout(
            len,
            bs,
            counts,
            k + 1,
            endw + 1,
        )
    } else {
        interleave_layout(len, bs, counts, k + 1, endw)
    }
}

/// Stepping the cursor once inside the pre-break region shifts one
/// plain entry out of the layout.
proof fn lemma_layout_pre_step(len: int, bs: Seq<(int, int, nat)>, counts: Seq<int>, k: int,
    cursor: int)
    requires
        0 <= k < bs.len(),
        0 <= counts.len() == bs.len(),
        cursor < bs[k].0,
        cursor < len,
    ensures
        interleave_layout(len, bs, counts, k, cursor) == seq![
            OutSeg::Orig { idx: cursor, forced: false },
        ] + interleave_layout(len, bs, counts, k, cursor + 1),
{
    let start = bs[k].0;
    lemma_range_orig_head(cursor, start);
    let pre1 = range_orig(cursor, start);
    let pre2 = range_orig(cursor + 1, start);
    let head = seq![OutSeg::Orig { idx: cursor, forced: false }];
    let cnt = counts[k];
    let endw = bs[k].1;
    if cnt <= 0 {
        assert(interleave_layout(len, bs, counts, k, cursor) == pre1 + interleave_layout(
            len,
            bs,
            counts,
            k + 1,
            start,
        ));
        assert(interleave_layout(len, bs, counts, k, cursor + 1) == pre2 + interleave_layout(
            len,
            bs,
            counts,
            k + 1,
            start,
        ));
        assert(pre1 + interleave_layout(len, bs, counts, k + 1, start) =~= head + (pre2
            + interleave_layout(len, bs, counts, k + 1, start)));
    } else if endw < len {
        assert(pre1 + run_from(k, 0, cnt) + seq![OutSeg::Orig { idx: endw, forced: true }]
            + interleave_layout(len, bs, counts, k + 1, endw + 1) =~= head + (pre2 + run_from(
            k,
            0,
            cnt,
        ) + seq![OutSeg::Orig { idx: endw, forced: true }] + interleave_layout(
            len,
            bs,
            counts,
            k + 1,
            endw + 1,
        )));
    } else {
        assert(pre1 + run_from(k, 0, cnt) + interleave_layout(len, bs, counts, k + 1, endw)
            =~= head + (pre2 + run_from(k, 0, cnt) + interleave_layout(
            len,
            bs,
            counts,
            k + 1,
            endw,
        )));
    }
}

/// Total width of the ad-break windows from break `k` on.
pub open spec fn sum_windows(bs: Seq<(int, int, nat)>, k: int) -> int
    decreases bs.len() - k,
        when k >= 0
{
    if !(0 <= k < bs.len()) {
        0
    } else {
        (bs[k].1 - bs[k].0) + sum_windows(bs, k + 1)
    }
}

/// Total number of ad segments from break `k` on.
pub open spec fn sum_counts(counts: Seq<int>, k: int) -> int
    decreases counts.len() - k,
        when k >= 0
{
    if !(0 <= k < counts.len()) {
        0
    } else {
        counts[k] + sum_counts(counts, k + 1)
    }
}

/// Break windows from `k` on are separated by at least one content
/// segment.
pub open spec fn separated(bs: Seq<(int, int, nat)>) -> bool {
    forall|i: int| 0 <= i < bs.len() - 1 ==> (#[trigger] bs[i]).1 < bs[i + 1].0
}

proof fn lemma_layout_len(
    len: int,
    bs: Seq<(int, int, nat)>,
    counts: Seq<int>,
    k: int,
    cursor: int,
)
    requires
        0 <= k <= bs.len(),
        counts.len() == bs.len(),
        wf_breaks(bs, len),
        separated(bs),
        forall|i: int| 0 <= i < counts.len() ==> #[trigger] counts[i] >= 1,
        0 <= cursor,
        cursor <= (if k < bs.len() {
            bs[k].0
        } else {
            len
        }),
    ensures
        interleave_layout(len, bs, counts, k, cursor).len() == (len - cursor) - sum_windows(bs, k)
            + sum_counts(counts, k),
    decreases bs.len() - k,
{
    if k == bs.len() {
        assert(interleave_layout(len, bs, counts, k, cursor) == range_orig(cursor, len));
        assert(range_orig(cursor, len).len() == len - cursor);
        assert(sum_windows(bs, k) == 0);
        assert(sum_counts(counts, k) == 0);
    } else {
        let start = bs[k].0;
        let endw = bs[k].1;
        let cnt = counts[k];
        assert(cnt >= 1);
        assert(0 <= bs[k].0 <= bs[k].1 <= len);
        let pre = range_orig(cursor, start);
        let run = run_from(k, 0, cnt);
        assert(pre.len() == start - cursor);
        assert(run.len() == cnt);
        assert(sum_windows(bs, k) == (endw - start) + sum_windows(bs, k + 1));
        assert(sum_counts(counts, k) == cnt + sum_counts(counts, k + 1));
        if endw < len {
            if k + 1 < bs.len() {
                assert(bs[k].1 < bs[k + 1].0);
            }
            lemma_layout_len(len, bs, counts, k + 1, endw + 1);
            let sub = interleave_layout(len, bs, counts, k + 1, endw + 1);

            assert(interleave_layout(len, bs, counts, k, cursor) == pre + run + seq![
                OutSeg::Orig { idx: endw, forced: true },
            ] + sub);
            assert(interleave_layout(len, bs, counts, k, cursor).len() == pre.len() + run.len()
                + 1 + sub.len());
        } else {
            assert(endw == len);
            if k + 1 < bs.len() {
                assert(bs[k].1 < bs[k + 1].0);
                assert(bs[k + 1].0 <= len);
                assert(false);
            }
            lemma_layout_len(len, bs, counts, k + 1, endw);
            let sub = interleave_layout(len, bs, counts, k + 1, endw);
            assert(interleave_layout(len, bs, counts, k, cursor) == pre + run + sub);
            assert(interleave_layout(len, bs, counts, k, cursor).len() == pre.len() + run.len()
                + sub.len());
        }
    }
}

/// The interleaver count law: with well-formed, separated breaks each
/// given at least one ad, the output holds exactly the input segments
/// outside the break windows plus all the ads.  The content segment
/// right after each break that ends before the playlist does is among
/// the retained originals, re-emitted with a forced discontinuity
/// (see `lemma_discontinuity_bracketing`), so it is counted once.
pub proof fn lemma_interleave_count(len: int, bs: Seq<(int, int, nat)>, counts: Seq<int>)
    requires
        counts.len() == bs.len(),
        wf_breaks(bs, len),
        separated(bs),
        forall|i: int| 0 <= i < counts.len() ==> #[trigger] counts[i] >= 1,
        len >= 0,
    ensures
        interleave_plan(len, bs, counts).len() == len - sum_windows(bs, 0) + sum_counts(
            counts,
            0,
        ),
{
    if bs.len() > 0 {
        assert(0 <= bs[0].0 <= bs[0].1 <= len);
    }
    lemma_layout_len(len, bs, counts, 0, 0);
}

/// Plan position `p` starts the ad run of break `t` (whose window ends
/// at `endw` and which got `cnt` ads), followed by the retained forced
/// segment when the playlist goes on.
pub open spec fn break_pos_at(
    plan: Seq<OutSeg>,
    p: int,
    t: int,
    endw: int,
    cnt: int,
    len: int,
) -> bool {
    &&& 0 <= p
    &&& p + cnt <= plan.len()
    &&& plan[p] == (OutSeg::Ad { b: t, j: 0 })
    &&& (endw < len ==> p + cnt < plan.len() && plan[p + cnt] == (OutSeg::Orig {
        idx: endw,
        forced: true,
    }))
}

proof fn lemma_layout_break_pos(
    len: int,
    bs: Seq<(int, int, nat)>,
    counts: Seq<int>,
    k: int,
    cursor: int,
    t: int,
)
    requires
        0 <= k <= t < bs.len(),
        counts.len() == bs.len(),
        counts[t] >= 1,
    ensures
        exists|p: int| #[trigger] break_pos_at(
            interleave_layout(len, bs, counts, k, cursor),
            p,
            t,
            bs[t].1,
            counts[t],
            len,
        ),
    decreases t - k,
{
    let start = bs[k].0;
    let endw = bs[k].1;
    let cnt = counts[k];
    let pre = range_orig(cursor, start);
    let layout = interleave_layout(len, bs, counts, k, cursor);
    if k == t {
        let p = pre.len() as int;
        let run = run_from(k, 0, cnt);
        assert(run.len() == cnt);
        assert(run[0] == (OutSeg::Ad { b: t, j: 0 }));
        if endw < len {
            assert(layout == pre + run + seq![OutSeg::Orig { idx: endw, forced: true }]
                + interleave_layout(len, bs, counts, k + 1, endw + 1));
            assert(layout[p] == run[0]);
            assert(layout[p + cnt] == (OutSeg::Orig { idx: endw, forced: true }));
            assert(break_pos_at(layout, p, t, bs[t].1, counts[t], len));
        } else {
            assert(layout == pre + run + interleave_layout(len, bs, counts, k + 1, endw));
            assert(layout[p] == run[0]);
            assert(break_pos_at(layout, p, t, bs[t].1, counts[t], len));
        }
    } else {
        let after_pre: int = if cursor < start {
            start
        } else {
            cursor
        };
        if cnt <= 0 {
            lemma_layout_break_pos(len, bs, counts, k + 1, after_pre, t);
            let sub = interleave_layout(len, bs, counts, k + 1, after_pre);
            let p0 = choose|p: int| #[trigger] break_pos_at(sub, p, t, bs[t].1, counts[t], len);
            assert(layout == pre + sub);
            assert(layout[pre.len() + p0] == sub[p0]);
            if bs[t].1 < len {
                assert(layout[pre.len() + p0 + counts[t]] == sub[p0 + counts[t]]);
            }
            assert(break_pos_at(layout, pre.len() + p0, t, bs[t].1, counts[t], len));
        } else if endw < len {
            lemma_layout_break_pos(len, bs, counts, k + 1, endw + 1, t);
            let sub = interleave_layout(len, bs, counts, k + 1, endw + 1);
            let p0 = choose|p: int| #[trigger] break_pos_at(sub, p, t, bs[t].1, counts[t], len);
            let prefix = pre + run_from(k, 0, cnt) + seq![OutSeg::Orig { idx: endw, forced: true }];
            assert(layout == prefix + sub);
            assert(layout[prefix.len() + p0] == sub[p0]);
            if bs[t].1 < len {
                assert(layout[prefix.len() + p0 + counts[t]] == sub[p0 + counts[t]]);
            }
            assert(break_pos_at(layout, prefix.len() + p0, t, bs[t].1, counts[t], len));
        } else {
            lemma_layout_break_pos(len, bs, counts, k + 1, endw, t);
            let sub = interleave_layout(len, bs, counts, k + 1, endw);
            let p0 = choose|p: int| #[trigger] break_pos_at(sub, p, t, bs[t].1, counts[t], len);
            let prefix = pre + run_from(k, 0, cnt);
            assert(layout == prefix + sub);
            assert(layout[prefix.len() + p0] == sub[p0]);
            if bs[t].1 < len {
                assert(layout[prefix.len() + p0 + counts[t]] == sub[p0 + counts[t]]);
            }
            assert(break_pos_at(layout, prefix.len() + p0, t, bs[t].1, counts[t], len));
        }
    }
}

/// The discontinuity bracketing law: every break that got at least one
/// ad appears in the plan as a run whose first entry is its first ad
/// segment (emitted with a discontinuity), and, when the playlist goes
/// on after the window, the entry right after the run is the first
/// following content segment with a forced discontinuity.
pub proof fn lemma_discontinuity_bracketing(
    len: int,
    bs: Seq<(int, int, nat)>,
    counts: Seq<int>,
    t: int,
)
    requires
        counts.len() == bs.len(),
        0 <= t < bs.len(),
        counts[t] >= 1,
    ensures
        exists|p: int| #[trigger] break_pos_at(
            interleave_plan(len, bs, counts),
            p,
            t,
            bs[t].1,
            counts[t],
            len,
        ),
{
    lemma_layout_break_pos(len, bs, counts, 0, 0, t);
    let p0 = choose|p: int| #[trigger] break_pos_at(
        interleave_layout(len, bs, counts, 0, 0),
        p,
        t,
        bs[t].1,
        counts[t],
        len,
    );
    assert(break_pos_at(interleave_plan(len, bs, counts), p0, t, bs[t].1, counts[t], len));
}


} // verus!
