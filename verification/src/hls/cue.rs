//! SCTE-35 CUE-tag detection over media-playlist segments.
//!
//! The detector is specified as a left-to-right scan over every segment's
//! unknown tags: `CUE-OUT` with a parseable duration opens a break when
//! none is open, `CUE-IN` closes the open break at the current segment
//! (exclusive), and a break still open at the end closes at the segment
//! count.

use vstd::prelude::*;
use crate::hls::model::{ExtTagV, MediaPlaylist, SegV};
use crate::num::dec_ms_opt;
use crate::text::{idx_of, lemma_idx_of_found, lemma_idx_of_none, str_eq, trim, trim_spec};

verus! {

/// An ad break detected from CUE tags.
#[derive(Clone, Debug, PartialEq)]
pub struct AdBreak {
    /// Starting segment index (inclusive).
    pub start_index: usize,
    /// Ending segment index (exclusive).
    pub end_index: usize,
    /// Duration of the ad break in milliseconds.
    pub duration_ms: u64,
}

/// The mathematical shadow of an `AdBreak`: (start, end, duration ms).
pub open spec fn break_model(b: AdBreak) -> (int, int, nat) {
    (b.start_index as int, b.end_index as int, b.duration_ms as nat)
}

/// The mathematical shadow of a break list.
pub open spec fn breaks_model(bs: Seq<AdBreak>) -> Seq<(int, int, nat)> {
    bs.map_values(|b: AdBreak| break_model(b))
}

/// Scan state: the open break, if any, and the breaks found so far.
pub ghost struct ScanState {
    pub open_break: Option<(int, nat)>,
    pub found: Seq<(int, int, nat)>,
}

/// The tag name closes a break.
pub open spec fn cue_in_name(t: Seq<char>) -> bool {
    t == "X-CUE-IN"@ || t == "CUE-IN"@
}

/// The tag name is a mid-break continuation marker.
pub open spec fn cue_out_cont_name(t: Seq<char>) -> bool {
    t == "X-CUE-OUT-CONT"@ || t == "CUE-OUT-CONT"@
}

/// The tag name opens a break.
pub open spec fn cue_out_name(t: Seq<char>) -> bool {
    t == "X-CUE-OUT"@ || t == "CUE-OUT"@
}

/// Millisecond value of a CUE-OUT payload, if it has one that fits a
/// `u64`: either the part after the first `=` (as in `DURATION=30`) or
/// the whole payload, each trimmed and read as decimal seconds.
pub open spec fn cue_rest_ms(r: Seq<char>) -> Option<nat> {
    match idx_of(r, '=') {
        Some(eq) => match capped_ms(r.subrange(eq + 1, r.len() as int)) {
            Some(v) => Some(v),
            None => capped_ms(r),
        },
        None => capped_ms(r),
    }
}

/// Decimal milliseconds of a trimmed string, when they fit a `u64`.
pub open spec fn capped_ms(s: Seq<char>) -> Option<nat> {
    match dec_ms_opt(trim_spec(s)) {
        Some(v) => if v <= u64::MAX as nat {
            Some(v)
        } else {
            None
        },
        None => None,
    }
}

/// The duration opened by a tag, when it is a CUE-OUT with a readable
/// payload.
pub open spec fn cue_out_ms(name: Seq<char>, rest: Option<Seq<char>>) -> Option<nat> {
    if cue_out_name(name) {
        match rest {
            Some(r) => cue_rest_ms(r),
            None => None,
        }
    } else {
        None
    }
}

/// One tag applied to the scan state at segment `idx`.  A `CUE-IN` on
/// the very segment that opened the break cancels it without emitting
/// anything: an ad break is never empty.
pub open spec fn cue_step(st: ScanState, idx: int, t: ExtTagV) -> ScanState {
    if cue_in_name(t.tag) {
        match st.open_break {
            Some((s, d)) => if idx > s {
                ScanState { open_break: None, found: st.found.push((s, idx, d)) }
            } else {
                ScanState { open_break: None, found: st.found }
            },
            None => st,
        }
    } else if cue_out_cont_name(t.tag) {
        st
    } else {
        match cue_out_ms(t.tag, t.rest) {
            Some(d) => if st.open_break is None {
                ScanState { open_break: Some((idx, d)), found: st.found }
            } else {
                st
            },
            None => st,
        }
    }
}

/// All tags of one segment applied in order.
pub open spec fn scan_tags(st: ScanState, idx: int, tags: Seq<ExtTagV>) -> ScanState
    decreases tags.len(),
{
    if tags.len() == 0 {
        st
    } else {
        scan_tags(cue_step(st, idx, tags.first()), idx, tags.drop_first())
    }
}

/// All segments from index `idx` on applied in order.
pub open spec fn scan_segs(st: ScanState, idx: int, segs: Seq<SegV>) -> ScanState
    decreases segs.len(),
{
    if segs.len() == 0 {
        st
    } else {
        scan_segs(scan_tags(st, idx, segs.first().unknown_tags), idx + 1, segs.drop_first())
    }
}

/// The empty starting state.
pub open spec fn scan_init() -> ScanState {
    ScanState { open_break: None, found: Seq::empty() }
}

/// The breaks of a segment list: the scan result, with a still-open break
/// closed at the segment count.
pub open spec fn cue_breaks(segs: Seq<SegV>) -> Seq<(int, int, nat)> {
    let end = scan_segs(scan_init(), 0, segs);
    match end.open_break {
        Some((s, d)) => end.found.push((s, segs.len() as int, d)),
        None => end.found,
    }
}

/// Well-formed break list over `len` segments: every break non-empty
/// and bounded, the list ordered and non-overlapping.
pub open spec fn wf_breaks(bs: Seq<(int, int, nat)>, len: int) -> bool {
    &&& forall|i: int| 0 <= i < bs.len() ==> 0 <= (#[trigger] bs[i]).0 < bs[i].1 <= len
    &&& forall|i: int| 0 <= i < bs.len() - 1 ==> (#[trigger] bs[i]).1 <= bs[i + 1].0
}

/// Scan invariant: found breaks are strict and bounded by `idx`, and an
/// open break started at or below `idx`.
spec fn scan_inv(st: ScanState, idx: int) -> bool {
    &&& forall|i: int| 0 <= i < st.found.len() ==> 0 <= (#[trigger] st.found[i]).0
        < st.found[i].1 <= idx
    &&& forall|i: int| 0 <= i < st.found.len() - 1 ==> (#[trigger] st.found[i]).1
        <= st.found[i + 1].0
    &&& match st.open_break {
        Some((s, d)) => 0 <= s <= idx && (st.found.len() > 0 ==> st.found.last().1 <= s),
        None => true,
    }
}

proof fn lemma_cue_step_inv(st: ScanState, idx: int, t: ExtTagV)
    requires
        scan_inv(st, idx),
        idx >= 0,
    ensures
        scan_inv(cue_step(st, idx, t), idx),
{
}

proof fn lemma_scan_tags_inv(st: ScanState, idx: int, tags: Seq<ExtTagV>)
    requires
        scan_inv(st, idx),
        idx >= 0,
    ensures
        scan_inv(scan_tags(st, idx, tags), idx),
    decreases tags.len(),
{
    if tags.len() > 0 {
        lemma_cue_step_inv(st, idx, tags.first());
        lemma_scan_tags_inv(cue_step(st, idx, tags.first()), idx, tags.drop_first());
    }
}

proof fn lemma_scan_segs_inv(st: ScanState, idx: int, segs: Seq<SegV>)
    requires
        scan_inv(st, idx - 1),
        idx >= 0,
    ensures
        scan_inv(scan_segs(st, idx, segs), idx + segs.len() - 1),
    decreases segs.len(),
{
    if segs.len() > 0 {
        assert(scan_inv(st, idx));
        lemma_scan_tags_inv(st, idx, segs.first().unknown_tags);
        lemma_scan_segs_inv(
            scan_tags(st, idx, segs.first().unknown_tags),
            idx + 1,
            segs.drop_first(),
        );
    }
}

/// The detector's result is always well formed: breaks are non-empty,
/// bounded by the segment count, ordered, and non-overlapping.
pub proof fn lemma_cue_breaks_wf(segs: Seq<SegV>)
    ensures
        wf_breaks(cue_breaks(segs), segs.len() as int),
{
    lemma_scan_segs_inv(scan_init(), 0, segs);
}

/// Appending one tag to a scanned prefix applies one more step.
proof fn lemma_scan_tags_push(st: ScanState, idx: int, tags: Seq<ExtTagV>, t: ExtTagV)
    ensures
        scan_tags(st, idx, tags.push(t)) == cue_step(scan_tags(st, idx, tags), idx, t),
    decreases tags.len(),
{
    if tags.len() == 0 {
        assert(tags.push(t).drop_first() =~= Seq::<ExtTagV>::empty());
        assert(tags.push(t).first() == t);
        assert(scan_tags(cue_step(st, idx, t), idx, Seq::<ExtTagV>::empty())
            == cue_step(st, idx, t));
        assert(scan_tags(st, idx, tags) == st);
    } else {
        assert(tags.push(t).first() == tags.first());
        assert(tags.push(t).drop_first() =~= tags.drop_first().push(t));
        assert(scan_tags(st, idx, tags.push(t))
            == scan_tags(cue_step(st, idx, tags.first()), idx, tags.drop_first().push(t)));
        assert(scan_tags(st, idx, tags)
            == scan_tags(cue_step(st, idx, tags.first()), idx, tags.drop_first()));
        lemma_scan_tags_push(cue_step(st, idx, tags.first()), idx, tags.drop_first(), t);
    }
}

/// Appending one segment to a scanned prefix scans its tags once more.
proof fn lemma_scan_segs_push(st: ScanState, idx: int, segs: Seq<SegV>, g: SegV)
    ensures
        scan_segs(st, idx, segs.push(g)) == scan_tags(
            scan_segs(st, idx, segs),
            idx + segs.len(),
            g.unknown_tags,
        ),
    decreases segs.len(),
{
    if segs.len() == 0 {
        assert(segs.push(g).drop_first() =~= Seq::<SegV>::empty());
        assert(segs.push(g).first() == g);
        assert(scan_segs(scan_tags(st, idx, g.unknown_tags), idx + 1,
            Seq::<SegV>::empty()) == scan_tags(st, idx, g.unknown_tags));
        assert(scan_segs(st, idx, segs) == st);
    } else {
        assert(segs.push(g).first() == segs.first());
        assert(segs.push(g).drop_first() =~= segs.drop_first().push(g));
        assert(scan_segs(st, idx, segs.push(g)) == scan_segs(
            scan_tags(st, idx, segs.first().unknown_tags),
            idx + 1,
            segs.drop_first().push(g),
        ));
        assert(scan_segs(st, idx, segs) == scan_segs(
            scan_tags(st, idx, segs.first().unknown_tags),
            idx + 1,
            segs.drop_first(),
        ));
        lemma_scan_segs_push(
            scan_tags(st, idx, segs.first().unknown_tags),
            idx + 1,
            segs.drop_first(),
            g,
        );
    }
}

/// Whether a tag name closes a break.
pub fn is_cue_in(tag_name: &str) -> (r: bool)
    ensures
        r == cue_in_name(tag_name@),
{
    str_eq(tag_name, "X-CUE-IN") || str_eq(tag_name, "CUE-IN")
}

/// Whether a tag name is a continuation marker.
pub fn is_cue_out_cont(tag_name: &str) -> (r: bool)
    ensures
        r == cue_out_cont_name(tag_name@),
{
    str_eq(tag_name, "X-CUE-OUT-CONT") || str_eq(tag_name, "CUE-OUT-CONT")
}

/// Trimmed decimal milliseconds of a payload piece.
fn capped_ms_exec(s: &str) -> (r: Option<u64>)
    ensures
        match r {
            Some(v) => capped_ms(s@) == Some(v as nat),
            None => capped_ms(s@) is None,
        },
{
    crate::num::parse_decimal_ms(trim(s))
}

/// Parse a CUE-OUT tag's duration in milliseconds.
///
/// Accepts a bare decimal payload (`30`, `60.5`) or a key form
/// (`DURATION=30`); anything else, including a missing payload, yields
/// `None`.
pub fn parse_cue_out(tag_name: &str, rest: Option<&str>) -> (r: Option<u64>)
    ensures
        match r {
            Some(v) => cue_out_ms(
                tag_name@,
                match rest {
                    Some(s) => Some(s@),
                    None => None,
                },
            ) == Some(v as nat),
            None => cue_out_ms(
                tag_name@,
                match rest {
                    Some(s) => Some(s@),
                    None => None,
                },
            ) is None,
        },
{
    if !(str_eq(tag_name, "X-CUE-OUT") || str_eq(tag_name, "CUE-OUT")) {
        return None;
    }
    let r = match rest {
        Some(r) => r,
        None => {
            return None;
        },
    };
    let eq_pos = crate::text::first_index_of(r, '=');
    match eq_pos {
        Some(eq) => {
            proof {
                lemma_idx_of_found(r@, '=', eq as int);
            }
            let len = r.unicode_len();
            let tail = r.substring_char(eq + 1, len);
            match capped_ms_exec(tail) {
                Some(v) => Some(v),
                None => capped_ms_exec(r),
            }
        },
        None => {
            proof {
                lemma_idx_of_none(r@, '=');
            }
            capped_ms_exec(r)
        },
    }
}

/// The spec shadow of the running open-break register.
pub open spec fn st_model(c: Option<(usize, u64)>) -> Option<(int, nat)> {
    match c {
        Some((s, d)) => Some((s as int, d as nat)),
        None => None,
    }
}

/// Detect ad breaks from CUE tags.
///
/// The result is exactly the break list of the specification scan
/// (`cue_breaks`), and is well formed over the playlist's segment count.
pub fn detect_ad_breaks(playlist: &MediaPlaylist) -> (r: Vec<AdBreak>)
    ensures
        breaks_model(r@) == cue_breaks(playlist@.segments),
        wf_breaks(breaks_model(r@), playlist@.segments.len() as int),
{
    let ghost segs = playlist@.segments;
    let mut current: Option<(usize, u64)> = None;
    let mut found: Vec<AdBreak> = Vec::new();
    let n = playlist.segments.len();

    assert(segs.subrange(0, 0) =~= Seq::<SegV>::empty());
    assert(breaks_model(found@) =~= scan_init().found);

    let mut index: usize = 0;
    while index < n
        invariant
            n == segs.len(),
            segs == playlist@.segments,
            0 <= index <= n,
            scan_segs(scan_init(), 0, segs.subrange(0, index as int)) == (ScanState {
                open_break: st_model(current),
                found: breaks_model(found@),
            }),
        decreases n - index,
    {
        let ghost st0 = st_model(current);
        let ghost found0 = breaks_model(found@);
        let seg = &playlist.segments[index];
        let ghost tags = segs[index as int].unknown_tags;
        proof {
            assert(segs[index as int] == playlist.segments@[index as int]@);
        }
        let m = seg.unknown_tags.len();
        assert(tags.subrange(0, 0) =~= Seq::<ExtTagV>::empty());

        let mut ti: usize = 0;
        while ti < m
            invariant
                m == tags.len(),
                tags == playlist.segments@[index as int]@.unknown_tags,
                seg == &playlist.segments@[index as int],
                index < segs.len(),
                segs == playlist@.segments,
                scan_tags(
                    ScanState { open_break: st0, found: found0 },
                    index as int,
                    tags.subrange(0, ti as int),
                ) == (ScanState { open_break: st_model(current), found: breaks_model(found@) }),
                0 <= ti <= m,
            decreases m - ti,
        {
            let tag = &seg.unknown_tags[ti];
            let ghost prev = ScanState {
                open_break: st_model(current),
                found: breaks_model(found@),
            };
            let ghost fb = found@;
            proof {
                assert(tags[ti as int] == seg.unknown_tags@[ti as int]@);
                assert(tags.subrange(0, ti + 1)
                    =~= tags.subrange(0, ti as int).push(tags[ti as int]));
                lemma_scan_tags_push(
                    ScanState { open_break: st0, found: found0 },
                    index as int,
                    tags.subrange(0, ti as int),
                    tags[ti as int],
                );
            }
            if is_cue_in(tag.tag.as_str()) {
                match current {
                    Some((s, d)) => {
                        if index > s {
                            found.push(
                                AdBreak { start_index: s, end_index: index, duration_ms: d },
                            );
                            proof {
                                assert(breaks_model(found@) =~= breaks_model(fb).push((
                                    s as int,
                                    index as int,
                                    d as nat,
                                )));
                            }
                        }
                        current = None;
                    },
                    None => {},
                }
            } else if is_cue_out_cont(tag.tag.as_str()) {
                // observational only
            } else {
                let rest_ref: Option<&str> = match &tag.rest {
                    Some(rr) => Some(rr.as_str()),
                    None => None,
                };
                match parse_cue_out(tag.tag.as_str(), rest_ref) {
                    Some(d) => {
                        if current.is_none() {
                            current = Some((index, d));
                        }
                    },
                    None => {},
                }
            }
            proof {
                assert(ScanState { open_break: st_model(current), found: breaks_model(found@) }
                    == cue_step(prev, index as int, tags[ti as int]));
            }
            ti += 1;
        }
        proof {
            assert(tags.subrange(0, m as int) =~= tags);
            assert(segs.subrange(0, index + 1)
                =~= segs.subrange(0, index as int).push(segs[index as int]));
            lemma_scan_segs_push(
                scan_init(),
                0,
                segs.subrange(0, index as int),
                segs[index as int],
            );
        }
        index += 1;
    }
    assert(segs.subrange(0, n as int) =~= segs);

    let ghost fb = found@;
    match current {
        Some((s, d)) => {
            found.push(AdBreak { start_index: s, end_index: n, duration_ms: d });
            proof {
                assert(breaks_model(found@) =~= breaks_model(fb).push((
                    s as int,
                    n as int,
                    d as nat,
                )));
                lemma_cue_breaks_wf(segs);
            }
        },
        None => {
            proof {
                lemma_cue_breaks_wf(segs);
            }
        },
    }
    found
}

/// Whether a segment index falls inside any of the breaks.
pub fn is_in_ad_break(segment_index: usize, ad_breaks: &Vec<AdBreak>) -> (r: bool)
    ensures
        r == exists|i: int| 0 <= i < ad_breaks@.len()
            && (#[trigger] ad_breaks@[i]).start_index <= segment_index < ad_breaks@[i].end_index,
{
    let mut i: usize = 0;
    let n = ad_breaks.len();
    while i < n
        invariant
            n == ad_breaks@.len(),
            0 <= i <= n,
            forall|j: int| 0 <= j < i ==> !((#[trigger] ad_breaks@[j]).start_index <= segment_index
                < ad_breaks@[j].end_index),
        decreases n - i,
    {
        let ab = &ad_breaks[i];
        if segment_index >= ab.start_index && segment_index < ab.end_index {
            return true;
        }
        i += 1;
    }
    false
}

/// Segment `s` carries a CUE-OUT tag with duration `d`.
pub open spec fn seg_has_cue_out(segs: Seq<SegV>, s: int, d: nat) -> bool {
    &&& 0 <= s < segs.len()
    &&& exists|t: int|
        0 <= t < segs[s].unknown_tags.len() && cue_out_ms(
            (#[trigger] segs[s].unknown_tags[t]).tag,
            segs[s].unknown_tags[t].rest,
        ) == Some(d)
}

/// The opening-tag invariant: the open break and every found break
/// start at a segment that carries a CUE-OUT of their duration.
spec fn couts_inv(st: ScanState, segs: Seq<SegV>) -> bool {
    &&& (match st.open_break {
        Some((s, d)) => seg_has_cue_out(segs, s, d),
        None => true,
    })
    &&& forall|i: int| 0 <= i < st.found.len() ==> seg_has_cue_out(
        segs,
        (#[trigger] st.found[i]).0,
        st.found[i].2,
    )
}

proof fn lemma_scan_tags_couts(st: ScanState, idx: int, tags: Seq<ExtTagV>, segs: Seq<SegV>)
    requires
        couts_inv(st, segs),
        0 <= idx < segs.len(),
        forall|j: int| 0 <= j < tags.len() ==> segs[idx].unknown_tags.contains(#[trigger] tags[j]),
    ensures
        couts_inv(scan_tags(st, idx, tags), segs),
    decreases tags.len(),
{
    if tags.len() > 0 {
        let t = tags.first();
        let st2 = cue_step(st, idx, t);
        assert(segs[idx].unknown_tags.contains(t));
        assert(couts_inv(st2, segs)) by {
            match cue_out_ms(t.tag, t.rest) {
                Some(d) => {
                    let w = choose|w: int|
                        0 <= w < segs[idx].unknown_tags.len() && segs[idx].unknown_tags[w] == t;
                    assert(seg_has_cue_out(segs, idx, d));
                },
                None => {},
            }
        }
        assert(forall|j: int| 0 <= j < tags.drop_first().len()
            ==> segs[idx].unknown_tags.contains(#[trigger] tags.drop_first()[j]));
        lemma_scan_tags_couts(st2, idx, tags.drop_first(), segs);
    }
}

proof fn lemma_scan_segs_couts(st: ScanState, idx: int, suffix: Seq<SegV>, segs: Seq<SegV>)
    requires
        couts_inv(st, segs),
        0 <= idx,
        idx + suffix.len() == segs.len(),
        suffix == segs.subrange(idx, segs.len() as int),
    ensures
        couts_inv(scan_segs(st, idx, suffix), segs),
    decreases suffix.len(),
{
    if suffix.len() > 0 {
        assert(suffix.first() == segs[idx]);
        assert(forall|j: int| 0 <= j < segs[idx].unknown_tags.len()
            ==> segs[idx].unknown_tags.contains(#[trigger] segs[idx].unknown_tags[j]));
        lemma_scan_tags_couts(st, idx, suffix.first().unknown_tags, segs);
        assert(suffix.drop_first() =~= segs.subrange(idx + 1, segs.len() as int));
        lemma_scan_segs_couts(
            scan_tags(st, idx, suffix.first().unknown_tags),
            idx + 1,
            suffix.drop_first(),
            segs,
        );
    }
}

/// The detector opens breaks only at CUE-OUT tags: every break of
/// `cue_breaks` starts at a segment carrying a CUE-OUT tag whose
/// payload reads as the break's duration.  (Together with the
/// well-formedness of the break list, its end is bounded by the next
/// break's start and the segment count.)
pub proof fn lemma_cue_breaks_start_at_cue_out(segs: Seq<SegV>)
    ensures
        forall|i: int| 0 <= i < cue_breaks(segs).len() ==> seg_has_cue_out(
            segs,
            (#[trigger] cue_breaks(segs)[i]).0,
            cue_breaks(segs)[i].2,
        ),
{
    assert(segs.subrange(0, segs.len() as int) =~= segs);
    lemma_scan_segs_couts(scan_init(), 0, segs, segs);
    let end = scan_segs(scan_init(), 0, segs);
    match end.open_break {
        Some((s, d)) => {
            assert(cue_breaks(segs) == end.found.push((s, segs.len() as int, d)));
        },
        None => {},
    }
}

} // verus!
