//! VAST-based ad provider: endpoint macro resolution, the wrapper-chase
//! state machine, the per-session resolved-creative cache, and the
//! depth bound that defeats wrapper cycles.
//!
//! The host program performs the HTTP fetches: it asks the chase for
//! the next request, fetches and parses it, and hands the parsed
//! response back.  Every decision is made here.

use vstd::prelude::*;
use crate::ad::provider::{AdCreative, AdSegment, ResolvedSegment, segments_to_creatives};
use crate::ad::slate::{SlateProvider, slate_seg_index};
use crate::ad::vast::{
    MediaFile, MediaFileV, VastAd, VastAdType, VastAdTypeV, VastAdV, VastResponse, best_media_spec,
    best_prog_from, find_first_hls, is_hls_file, is_prog_mp4, bitrate_key,
};
use crate::metrics::{Metrics, bumped, record_slate_fallback, record_vast_request, vast_key};
use crate::num::{dec_str, u64_to_string, usize_to_string};
use crate::text::{
    ends_with, replace_all, replace_all_spec, str_eq, str_ends_with, str_starts_with, starts_with,
};

verus! {

/// An ad creative resolved from VAST.
#[derive(Clone, Debug, PartialEq)]
pub struct CreativeRef {
    /// URL to the ad creative (HLS playlist or MP4).
    pub url: String,
    /// Duration in milliseconds.
    pub duration_ms: u64,
    /// Whether this is an HLS stream (vs progressive MP4).
    pub is_hls: bool,
}

/// Mathematical view of a `CreativeRef`.
pub ghost struct CreativeRefV {
    pub url: Seq<char>,
    pub duration_ms: u64,
    pub is_hls: bool,
}

impl View for CreativeRef {
    type V = CreativeRefV;

    open spec fn view(&self) -> CreativeRefV {
        CreativeRefV { url: self.url@, duration_ms: self.duration_ms, is_hls: self.is_hls }
    }
}

/// A cached resolved creative, stamped with its insertion time.
#[derive(Clone, Debug, PartialEq)]
pub struct CachedCreative {
    pub key: String,
    pub url: String,
    pub duration_ms: u64,
    pub is_hls: bool,
    pub inserted_at_ms: u64,
}

/// Mathematical view of a `CachedCreative`.
pub ghost struct CachedCreativeV {
    pub key: Seq<char>,
    pub url: Seq<char>,
    pub duration_ms: u64,
    pub is_hls: bool,
    pub inserted_at_ms: u64,
}

impl View for CachedCreative {
    type V = CachedCreativeV;

    open spec fn view(&self) -> CachedCreativeV {
        CachedCreativeV {
            key: self.key@,
            url: self.url@,
            duration_ms: self.duration_ms,
            is_hls: self.is_hls,
            inserted_at_ms: self.inserted_at_ms,
        }
    }
}

/// The creative references an inline ad's creatives contribute, in
/// order: each creative with linear content and a selectable media file
/// yields its URL, the linear duration, and whether it is HLS.
pub open spec fn inline_creatives(cs: Seq<crate::ad::vast::CreativeV>) -> Seq<CreativeRefV>
    decreases cs.len(),
{
    if cs.len() == 0 {
        Seq::empty()
    } else {
        let head: Seq<CreativeRefV> = match cs.first().linear {
            Some(lin) => match best_media_spec(lin.media_files) {
                Some(f) => seq![
                    CreativeRefV {
                        url: f.url,
                        duration_ms: lin.duration_ms,
                        is_hls: is_hls_file(f),
                    },
                ],
                None => Seq::empty(),
            },
            None => Seq::empty(),
        };
        head + inline_creatives(cs.drop_first())
    }
}

/// The creative references a whole response's ads contribute: inline
/// ads yield their creatives, wrappers nothing (they are chased).
pub open spec fn response_creatives(ads: Seq<VastAdV>) -> Seq<CreativeRefV>
    decreases ads.len(),
{
    if ads.len() == 0 {
        Seq::empty()
    } else {
        let head: Seq<CreativeRefV> = match ads.first().ad_type {
            VastAdTypeV::InLine(inline) => inline_creatives(inline.creatives),
            VastAdTypeV::Wrapper(_) => Seq::empty(),
        };
        head + response_creatives(ads.drop_first())
    }
}

/// The wrapper tag URIs of a response's ads, in order.
pub open spec fn response_wrappers(ads: Seq<VastAdV>) -> Seq<Seq<char>>
    decreases ads.len(),
{
    if ads.len() == 0 {
        Seq::empty()
    } else {
        let head: Seq<Seq<char>> = match ads.first().ad_type {
            VastAdTypeV::Wrapper(w) => seq![w.ad_tag_uri],
            VastAdTypeV::InLine(_) => Seq::empty(),
        };
        head + response_wrappers(ads.drop_first())
    }
}

/// The wrapper-chase work list: pending fetches with their depths, and
/// the creatives collected so far.
pub struct WrapperChase {
    queue: Vec<(String, u32)>,
    creatives: Vec<CreativeRef>,
    max_depth: u32,
}

impl WrapperChase {
    /// Pending fetches, in order.
    pub closed spec fn queue_view(&self) -> Seq<(Seq<char>, u32)> {
        self.queue@.map_values(|p: (String, u32)| (p.0@, p.1))
    }

    /// Creatives collected so far, in order.
    pub closed spec fn creatives_view(&self) -> Seq<CreativeRefV> {
        self.creatives@.map_values(|c: CreativeRef| c@)
    }

    /// The wrapper depth bound.
    pub closed spec fn depth_bound(&self) -> u32 {
        self.max_depth
    }

    /// Every pending fetch sits at or under the depth bound.
    pub open spec fn wf(&self) -> bool {
        forall|i: int| 0 <= i < self.queue_view().len() ==> (#[trigger] self.queue_view()[i]).1
            <= self.depth_bound()
    }

    /// A chase about to fetch `endpoint` at depth zero.
    pub fn start(endpoint: String, max_depth: u32) -> (r: WrapperChase)
        ensures
            r.wf(),
            r.queue_view() == seq![(endpoint@, 0u32)],
            r.creatives_view() == Seq::<CreativeRefV>::empty(),
            r.depth_bound() == max_depth,
    {
        let mut queue: Vec<(String, u32)> = Vec::new();
        queue.push((endpoint, 0));
        let r = WrapperChase { queue, creatives: Vec::new(), max_depth };
        proof {
            assert(r.queue_view() =~= seq![(r.queue@[0].0@, 0u32)]);
            assert(r.creatives_view() =~= Seq::<CreativeRefV>::empty());
        }
        r
    }

    /// The next URL to fetch, with its depth, if any is pending.  The
    /// depth never exceeds the bound.
    pub fn next_request(&mut self) -> (r: Option<(String, u32)>)
        requires
            old(self).wf(),
        ensures
            final(self).wf(),
            final(self).depth_bound() == old(self).depth_bound(),
            final(self).creatives_view() == old(self).creatives_view(),
            match r {
                Some((url, depth)) => old(self).queue_view().len() > 0 && (url@, depth) == old(
                    self,
                ).queue_view()[0] && depth <= old(self).depth_bound() && final(self).queue_view()
                    == old(self).queue_view().drop_first(),
                None => old(self).queue_view().len() == 0 && final(self).queue_view() == old(
                    self,
                ).queue_view(),
            },
    {
        if self.queue.len() == 0 {
            return None;
        }
        let ghost before = self.queue_view();
        let (url, depth) = self.queue.remove(0);
        proof {
            assert(self.queue_view() =~= before.drop_first());
            assert(before[0].1 <= self.depth_bound());
        }
        Some((url, depth))
    }

    /// Whether the chase is finished.
    pub fn done(&self) -> (r: bool)
        ensures
            r == (self.queue_view().len() == 0),
    {
        self.queue.len() == 0
    }

    /// Feed one fetched, parsed response back, with the depth its
    /// request carried.  The response's inline creatives are collected
    /// in order; its wrappers are enqueued one level deeper, unless the
    /// depth bound would be exceeded — a wrapper chain deeper than the
    /// bound therefore never contributes a creative.
    pub fn deliver(&mut self, depth: u32, response: &VastResponse, session_id: &str)
        requires
            old(self).wf(),
        ensures
            final(self).wf(),
            final(self).depth_bound() == old(self).depth_bound(),
            final(self).creatives_view() == old(self).creatives_view() + response_creatives(
                response@.ads,
            ),
            final(self).queue_view() == old(self).queue_view() + (if depth < old(
                self,
            ).depth_bound() {
                response_wrappers(response@.ads).map_values(|u: Seq<char>| (u, (depth + 1) as u32))
            } else {
                Seq::<(Seq<char>, u32)>::empty()
            }),
    {
        let ghost ads = response@.ads;
        let ghost q0 = self.queue_view();
        let ghost c0 = self.creatives_view();
        let n = response.ads.len();
        let mut i: usize = 0;
        proof {
            assert(ads.subrange(0, 0) =~= Seq::<VastAdV>::empty());
            assert(c0 + Seq::<CreativeRefV>::empty() =~= c0);
            assert(q0 + Seq::<(Seq<char>, u32)>::empty() =~= q0);
        }
        while i < n
            invariant
                n == ads.len(),
                ads == response@.ads,
                old(self).wf(),
                self.depth_bound() == old(self).depth_bound(),
                0 <= i <= n,
                self.creatives_view() == c0 + response_creatives(ads.subrange(0, i as int)),
                self.queue_view() == q0 + (if depth < self.depth_bound() {
                    response_wrappers(ads.subrange(0, i as int)).map_values(
                        |u: Seq<char>| (u, (depth + 1) as u32),
                    )
                } else {
                    Seq::<(Seq<char>, u32)>::empty()
                }),
                self.wf(),
                depth < self.depth_bound() ==> depth + 1 <= self.depth_bound(),
            decreases n - i,
        {
            proof {
                assert(ads[i as int] == response.ads@[i as int]@);
                lemma_response_creatives_snoc(ads, i as int);
                lemma_response_wrappers_snoc(ads, i as int);
            }
            let ad = &response.ads[i];
            match &ad.ad_type {
                VastAdType::InLine(inline) => {
                    let ghost inl = ads[i as int].ad_type->InLine_0;
                    let ghost cbefore = self.creatives_view();
                    self.collect_inline_creatives(&inline.creatives, session_id);
                    proof {
                        assert(self.creatives_view() =~= c0 + response_creatives(
                            ads.subrange(0, i + 1),
                        ));
                    }
                },
                VastAdType::Wrapper(wrapper) => {
                    if depth < self.max_depth {
                        let ghost qbefore = self.queue_view();
                        self.queue.push((wrapper.ad_tag_uri.clone(), depth + 1));
                        proof {
                            assert(self.queue_view() =~= qbefore.push(
                                (wrapper.ad_tag_uri@, (depth + 1) as u32),
                            ));
                            assert(self.queue_view() =~= q0 + response_wrappers(
                                ads.subrange(0, i + 1),
                            ).map_values(|u: Seq<char>| (u, (depth + 1) as u32)));
                        }
                    } else {
                        proof {
                            assert(self.queue_view() =~= q0);
                        }
                    }
                    proof {
                        assert(self.creatives_view() =~= c0 + response_creatives(
                            ads.subrange(0, i + 1),
                        ));
                    }
                },
            }
            i += 1;
        }
        proof {
            assert(ads.subrange(0, n as int) =~= ads);
        }
    }

    /// Collect the creative references of one inline ad.
    fn collect_inline_creatives(
        &mut self,
        creatives: &Vec<crate::ad::vast::Creative>,
        session_id: &str,
    )
        ensures
            final(self).creatives_view() == old(self).creatives_view() + inline_creatives(
                creatives@.map_values(|c: crate::ad::vast::Creative| c@),
            ),
            final(self).queue_view() == old(self).queue_view(),
            final(self).depth_bound() == old(self).depth_bound(),
    {
        let ghost cs = creatives@.map_values(|c: crate::ad::vast::Creative| c@);
        let ghost c0 = self.creatives_view();
        let n = creatives.len();
        let mut i: usize = 0;
        proof {
            assert(cs.subrange(0, 0) =~= Seq::<crate::ad::vast::CreativeV>::empty());
            assert(c0 + Seq::<CreativeRefV>::empty() =~= c0);
        }
        while i < n
            invariant
                n == cs.len(),
                cs == creatives@.map_values(|c: crate::ad::vast::Creative| c@),
                0 <= i <= n,
                self.creatives_view() == c0 + inline_creatives(cs.subrange(0, i as int)),
                self.queue_view() == old(self).queue_view(),
                self.depth_bound() == old(self).depth_bound(),
            decreases n - i,
        {
            proof {
                assert(cs[i as int] == creatives@[i as int]@);
                lemma_inline_creatives_snoc(cs, i as int);
            }
            let creative = &creatives[i];
            match &creative.linear {
                Some(linear) => {
                    match pick_best_media(&linear.media_files) {
                        Some(fidx) => {
                            let media_file = &linear.media_files[fidx];
                            // advisory compatibility check, as on every
                            // selected creative
                            crate::ad::conditioning::check_creative(media_file, session_id);
                            let is_hls = str_eq(
                                media_file.mime_type.as_str(),
                                "application/x-mpegURL",
                            );
                            let ghost cbefore = self.creatives_view();
                            self.creatives.push(
                                CreativeRef {
                                    url: media_file.url.clone(),
                                    duration_ms: linear.duration_ms,
                                    is_hls,
                                },
                            );
                            proof {
                                assert(self.creatives_view() =~= cbefore.push(
                                    CreativeRefV {
                                        url: media_file.url@,
                                        duration_ms: linear.duration_ms,
                                        is_hls,
                                    },
                                ));
                                assert(self.creatives_view() =~= c0 + inline_creatives(
                                    cs.subrange(0, i + 1),
                                ));
                            }
                        },
                        None => {
                            proof {
                                assert(self.creatives_view() =~= c0 + inline_creatives(
                                    cs.subrange(0, i + 1),
                                ));
                            }
                        },
                    }
                },
                None => {
                    proof {
                        assert(self.creatives_view() =~= c0 + inline_creatives(
                            cs.subrange(0, i + 1),
                        ));
                    }
                },
            }
            i += 1;
        }
        proof {
            assert(cs.subrange(0, n as int) =~= cs);
        }
    }

    /// Hand the collected creatives out.
    pub fn take_creatives(self) -> (r: Vec<CreativeRef>)
        ensures
            r@.map_values(|c: CreativeRef| c@) == self.creatives_view(),
    {
        self.creatives
    }
}

proof fn lemma_response_creatives_snoc(ads: Seq<VastAdV>, i: int)
    requires
        0 <= i < ads.len(),
    ensures
        response_creatives(ads.subrange(0, i + 1)) == response_creatives(ads.subrange(0, i)) + (
        match ads[i].ad_type {
            VastAdTypeV::InLine(inline) => inline_creatives(inline.creatives),
            VastAdTypeV::Wrapper(_) => Seq::<CreativeRefV>::empty(),
        }),
    decreases i,
{
    if i == 0 {
        assert(ads.subrange(0, 1).first() == ads[0]);
        assert(ads.subrange(0, 1).drop_first() =~= Seq::<VastAdV>::empty());
        assert(ads.subrange(0, 0) =~= Seq::<VastAdV>::empty());
        assert(response_creatives(Seq::<VastAdV>::empty()) == Seq::<CreativeRefV>::empty());
        assert(response_creatives(ads.subrange(0, 1)) =~= Seq::<CreativeRefV>::empty() + (
        match ads[0].ad_type {
            VastAdTypeV::InLine(inline) => inline_creatives(inline.creatives),
            VastAdTypeV::Wrapper(_) => Seq::<CreativeRefV>::empty(),
        }));
    } else {
        assert(ads.subrange(0, i + 1).first() == ads[0]);
        assert(ads.subrange(0, i).first() == ads[0]);
        assert(ads.subrange(0, i + 1).drop_first() =~= ads.subrange(1, ads.len() as int).subrange(
            0,
            i,
        ));
        assert(ads.subrange(0, i).drop_first() =~= ads.subrange(1, ads.len() as int).subrange(
            0,
            i - 1,
        ));
        lemma_response_creatives_snoc(ads.subrange(1, ads.len() as int), i - 1);
        assert(ads.subrange(1, ads.len() as int)[i - 1] == ads[i]);
    }
}

proof fn lemma_response_wrappers_snoc(ads: Seq<VastAdV>, i: int)
    requires
        0 <= i < ads.len(),
    ensures
        response_wrappers(ads.subrange(0, i + 1)) == response_wrappers(ads.subrange(0, i)) + (
        match ads[i].ad_type {
            VastAdTypeV::Wrapper(w) => seq![w.ad_tag_uri],
            VastAdTypeV::InLine(_) => Seq::<Seq<char>>::empty(),
        }),
    decreases i,
{
    if i == 0 {
        assert(ads.subrange(0, 1).first() == ads[0]);
        assert(ads.subrange(0, 1).drop_first() =~= Seq::<VastAdV>::empty());
        assert(ads.subrange(0, 0) =~= Seq::<VastAdV>::empty());
        assert(response_wrappers(Seq::<VastAdV>::empty()) == Seq::<Seq<char>>::empty());
        assert(response_wrappers(ads.subrange(0, 1)) =~= Seq::<Seq<char>>::empty() + (
        match ads[0].ad_type {
            VastAdTypeV::Wrapper(w) => seq![w.ad_tag_uri],
            VastAdTypeV::InLine(_) => Seq::<Seq<char>>::empty(),
        }));
    } else {
        assert(ads.subrange(0, i + 1).first() == ads[0]);
        assert(ads.subrange(0, i).first() == ads[0]);
        assert(ads.subrange(0, i + 1).drop_first() =~= ads.subrange(1, ads.len() as int).subrange(
            0,
            i,
        ));
        assert(ads.subrange(0, i).drop_first() =~= ads.subrange(1, ads.len() as int).subrange(
            0,
            i - 1,
        ));
        lemma_response_wrappers_snoc(ads.subrange(1, ads.len() as int), i - 1);
        assert(ads.subrange(1, ads.len() as int)[i - 1] == ads[i]);
    }
}

proof fn lemma_inline_creatives_snoc(cs: Seq<crate::ad::vast::CreativeV>, i: int)
    requires
        0 <= i < cs.len(),
    ensures
        inline_creatives(cs.subrange(0, i + 1)) == inline_creatives(cs.subrange(0, i)) + (
        match cs[i].linear {
            Some(lin) => match best_media_spec(lin.media_files) {
                Some(f) => seq![
                    CreativeRefV { url: f.url, duration_ms: lin.duration_ms, is_hls: is_hls_file(f) },
                ],
                None => Seq::<CreativeRefV>::empty(),
            },
            None => Seq::<CreativeRefV>::empty(),
        }),
    decreases i,
{
    if i == 0 {
        assert(cs.subrange(0, 1).first() == cs[0]);
        assert(cs.subrange(0, 1).drop_first() =~= Seq::<crate::ad::vast::CreativeV>::empty());
        assert(cs.subrange(0, 0) =~= Seq::<crate::ad::vast::CreativeV>::empty());
        assert(inline_creatives(Seq::<crate::ad::vast::CreativeV>::empty())
            == Seq::<CreativeRefV>::empty());
        assert(inline_creatives(cs.subrange(0, 1)) =~= Seq::<CreativeRefV>::empty() + (
        match cs[0].linear {
            Some(lin) => match best_media_spec(lin.media_files) {
                Some(f) => seq![
                    CreativeRefV { url: f.url, duration_ms: lin.duration_ms, is_hls: is_hls_file(f) },
                ],
                None => Seq::<CreativeRefV>::empty(),
            },
            None => Seq::<CreativeRefV>::empty(),
        }));
    } else {
        assert(cs.subrange(0, i + 1).first() == cs[0]);
        assert(cs.subrange(0, i).first() == cs[0]);
        assert(cs.subrange(0, i + 1).drop_first() =~= cs.subrange(1, cs.len() as int).subrange(
            0,
            i,
        ));
        assert(cs.subrange(0, i).drop_first() =~= cs.subrange(1, cs.len() as int).subrange(
            0,
            i - 1,
        ));
        lemma_inline_creatives_snoc(cs.subrange(1, cs.len() as int), i - 1);
        assert(cs.subrange(1, cs.len() as int)[i - 1] == cs[i]);
    }
}

/// Pick the media file the selection rule names, as an index.
fn pick_best_media(files: &Vec<MediaFile>) -> (r: Option<usize>)
    ensures
        match r {
            Some(i) => i < files@.len() && best_media_spec(
                files@.map_values(|f: MediaFile| f@),
            ) == Some(files@[i as int]@),
            None => best_media_spec(files@.map_values(|f: MediaFile| f@)) is None,
        },
{
    let ghost fv = files@.map_values(|f: MediaFile| f@);
    let n = files.len();
    let mut i: usize = 0;
    while i < n
        invariant
            n == fv.len(),
            fv == files@.map_values(|f: MediaFile| f@),
            0 <= i <= n,
            forall|j: int| 0 <= j < i ==> !is_hls_file(#[trigger] fv[j]),
        decreases n - i,
    {
        proof {
            assert(fv[i as int] == files@[i as int]@);
        }
        if str_eq(files[i].mime_type.as_str(), "application/x-mpegURL") {
            proof {
                lemma_first_hls_found(fv, i as int);
            }
            return Some(i);
        }
        i += 1;
    }
    proof {
        lemma_first_hls_none(fv);
    }
    let mut best: Option<usize> = None;
    let mut k: usize = 0;
    while k < n
        invariant
            n == fv.len(),
            fv == files@.map_values(|f: MediaFile| f@),
            0 <= k <= n,
            best_prog_from(fv, 0, None) == best_prog_from(fv, k as int, best_model(best, fv)),
            match best {
                Some(b) => b < k,
                None => true,
            },
        decreases n - k,
    {
        proof {
            assert(fv[k as int] == files@[k as int]@);
        }
        let f = &files[k];
        let is_prog = str_eq(f.delivery.as_str(), "progressive") && str_eq(
            f.mime_type.as_str(),
            "video/mp4",
        );
        let key: u64 = match f.bitrate {
            Some(b) => b as u64 + 1,
            None => 0,
        };
        let replace: bool = if is_prog {
            match best {
                Some(b) => {
                    let bkey: u64 = match files[b].bitrate {
                        Some(x) => x as u64 + 1,
                        None => 0,
                    };
                    key > bkey
                },
                None => true,
            }
        } else {
            false
        };
        proof {
            if let Some(b) = best {
                assert(fv[b as int] == files@[b as int]@);
            }
        }
        if replace {
            best = Some(k);
        }
        k += 1;
    }
    match best {
        Some(b) => Some(b),
        None => None,
    }
}

/// The spec shadow of the running best register.
pub open spec fn best_model(best: Option<usize>, fv: Seq<MediaFileV>) -> Option<MediaFileV> {
    match best {
        Some(b) => Some(fv[b as int]),
        None => None,
    }
}

proof fn lemma_first_hls_found(fv: Seq<MediaFileV>, i: int)
    requires
        0 <= i < fv.len(),
        is_hls_file(fv[i]),
        forall|j: int| 0 <= j < i ==> !is_hls_file(#[trigger] fv[j]),
    ensures
        find_first_hls(fv) == Some(i),
        best_media_spec(fv) == Some(fv[i]),
    decreases fv.len(),
{
    if i > 0 {
        lemma_first_hls_found(fv.drop_first(), i - 1);
    }
}

proof fn lemma_first_hls_none(fv: Seq<MediaFileV>)
    requires
        forall|j: int| 0 <= j < fv.len() ==> !is_hls_file(#[trigger] fv[j]),
    ensures
        find_first_hls(fv) is None,
    decreases fv.len(),
{
    if fv.len() > 0 {
        lemma_first_hls_none(fv.drop_first());
    }
}

/// The wrapper depth bound law: a chase whose every delivered response
/// holds only wrapper ads collects no creative, whatever the depths.
pub proof fn lemma_wrapper_depth_bound(ads: Seq<VastAdV>)
    requires
        forall|i: int| 0 <= i < ads.len() ==> (#[trigger] ads[i]).ad_type is Wrapper,
    ensures
        response_creatives(ads) == Seq::<CreativeRefV>::empty(),
    decreases ads.len(),
{
    if ads.len() > 0 {
        assert(ads[0].ad_type is Wrapper);
        lemma_wrapper_depth_bound(ads.drop_first());
        assert(response_creatives(ads) =~= Seq::<CreativeRefV>::empty());
    }
}

/// The cache key of an ad name within a session.
pub open spec fn cache_key_of(sid: Seq<char>, ad_name: Seq<char>) -> Seq<char> {
    sid + ":"@ + ad_name
}

/// The generated ad name of the `i`th resolved creative.
pub open spec fn vast_ad_name(i: int) -> Seq<char> {
    "break-0-seg-"@ + dec_str(i as nat) + ".ts"@
}

/// A cache with one entry upserted: the first entry with the key is
/// replaced, or the entry is appended.
pub open spec fn cache_upsert(cache: Seq<CachedCreativeV>, entry: CachedCreativeV) -> Seq<
    CachedCreativeV,
>
    decreases cache.len(),
{
    if cache.len() == 0 {
        seq![entry]
    } else if cache.first().key == entry.key {
        seq![entry] + cache.drop_first()
    } else {
        seq![cache.first()] + cache_upsert(cache.drop_first(), entry)
    }
}

/// The cache after storing creatives `k, k+1, …` of a resolution.
pub open spec fn cache_stored(
    cache: Seq<CachedCreativeV>,
    creatives: Seq<CreativeRefV>,
    k: int,
    sid: Seq<char>,
    now_ms: u64,
) -> Seq<CachedCreativeV>
    decreases creatives.len() - k,
        when k >= 0
{
    if !(0 <= k < creatives.len()) {
        cache
    } else {
        cache_stored(
            cache_upsert(
                cache,
                CachedCreativeV {
                    key: cache_key_of(sid, vast_ad_name(k)),
                    url: creatives[k].url,
                    duration_ms: creatives[k].duration_ms,
                    is_hls: creatives[k].is_hls,
                    inserted_at_ms: now_ms,
                },
            ),
            creatives,
            k + 1,
            sid,
            now_ms,
        )
    }
}

/// The first cache entry whose key ends in `:{ad_name}`, if any.
pub open spec fn cache_find(cache: Seq<CachedCreativeV>, ad_name: Seq<char>) -> Option<
    CachedCreativeV,
>
    decreases cache.len(),
{
    if cache.len() == 0 {
        None
    } else if ends_with(cache.first().key, ":"@ + ad_name) {
        Some(cache.first())
    } else {
        cache_find(cache.drop_first(), ad_name)
    }
}

/// A cache entry is live at `now` under `ttl`.
pub open spec fn cache_live(e: CachedCreativeV, now_ms: u64, ttl_ms: u64) -> bool {
    now_ms < e.inserted_at_ms || now_ms - e.inserted_at_ms < ttl_ms
}

/// The cache after a sweep: expired entries out, then the oldest
/// dropped from the front until the count bound holds.
pub open spec fn cache_swept(
    cache: Seq<CachedCreativeV>,
    now_ms: u64,
    ttl_ms: u64,
    cap: int,
) -> Seq<CachedCreativeV> {
    let kept = cache.filter(|e: CachedCreativeV| cache_live(e, now_ms, ttl_ms));
    if kept.len() > cap {
        kept.subrange(kept.len() - cap, kept.len() as int)
    } else {
        kept
    }
}

/// VAST-based ad provider.
pub struct VastAdProvider {
    vast_endpoint: String,
    ad_cache: Vec<CachedCreative>,
    max_wrapper_depth: u32,
    timeout_ms: u64,
    cache_ttl_ms: u64,
    cache_cap: usize,
    slate: Option<SlateProvider>,
}

impl VastAdProvider {
    /// The configured endpoint URL.
    pub closed spec fn endpoint_view(&self) -> Seq<char> {
        self.vast_endpoint@
    }

    /// The resolved-creative cache contents.
    pub closed spec fn cache_view(&self) -> Seq<CachedCreativeV> {
        self.ad_cache@.map_values(|c: CachedCreative| c@)
    }

    /// The wrapper depth bound.
    pub closed spec fn max_depth(&self) -> u32 {
        self.max_wrapper_depth
    }

    /// The per-request timeout.
    pub closed spec fn timeout_spec(&self) -> u64 {
        self.timeout_ms
    }

    /// The cache TTL.
    pub closed spec fn cache_ttl(&self) -> u64 {
        self.cache_ttl_ms
    }

    /// The cache count bound.
    pub closed spec fn cap(&self) -> usize {
        self.cache_cap
    }

    /// The configured slate, if any.
    pub closed spec fn slate_of(&self) -> Option<SlateProvider> {
        self.slate
    }

    /// The slate, when present, is usable.
    pub open spec fn wf(&self) -> bool {
        match self.slate_of() {
            Some(s) => s.wf(),
            None => true,
        }
    }

    /// A provider over a VAST endpoint, with a wrapper depth bound of
    /// five, a two-second request timeout, a five-minute cache TTL and
    /// a ten-thousand-entry cache bound, and no slate.
    pub fn new(vast_endpoint: String) -> (r: VastAdProvider)
        ensures
            r.wf(),
            r.endpoint_view() == vast_endpoint@,
            r.cache_view() == Seq::<CachedCreativeV>::empty(),
            r.max_depth() == 5,
            r.timeout_spec() == 2000,
            r.cache_ttl() == 300000,
            r.cap() == 10000,
            r.slate_of() is None,
    {
        let r = VastAdProvider {
            vast_endpoint,
            ad_cache: Vec::new(),
            max_wrapper_depth: 5,
            timeout_ms: 2000,
            cache_ttl_ms: 300000,
            cache_cap: 10000,
            slate: None,
        };
        proof {
            assert(r.cache_view() =~= Seq::<CachedCreativeV>::empty());
        }
        r
    }

    /// Configure a slate for fallback when VAST yields no ads.
    pub fn with_slate(self, slate: SlateProvider) -> (r: VastAdProvider)
        requires
            slate.wf(),
        ensures
            r.wf(),
            r.endpoint_view() == self.endpoint_view(),
            r.cache_view() == self.cache_view(),
            r.max_depth() == self.max_depth(),
            r.timeout_spec() == self.timeout_spec(),
            r.cache_ttl() == self.cache_ttl(),
            r.cap() == self.cap(),
            r.slate_of() == Some(slate),
    {
        VastAdProvider { slate: Some(slate), ..self }
    }

    /// The request timeout in milliseconds.
    pub fn timeout(&self) -> (r: u64)
        ensures
            r == self.timeout_spec(),
    {
        self.timeout_ms
    }

    /// Substitute the `[DURATION]` (whole seconds) and `[CACHEBUSTING]`
    /// (current epoch milliseconds) macros into the endpoint URL.
    pub fn resolve_endpoint(&self, duration_ms: u64, now_ms: u64) -> (r: String)
        ensures
            r@ == replace_all_spec(
                replace_all_spec(
                    self.endpoint_view(),
                    "[DURATION]"@,
                    dec_str((duration_ms / 1000) as nat),
                ),
                "[CACHEBUSTING]"@,
                dec_str(now_ms as nat),
            ),
    {
        let step1 = replace_all(
            self.vast_endpoint.as_str(),
            "[DURATION]",
            u64_to_string(duration_ms / 1000).as_str(),
        );
        replace_all(step1.as_str(), "[CACHEBUSTING]", u64_to_string(now_ms).as_str())
    }

    /// Begin a wrapper chase at the resolved endpoint.
    pub fn start_chase(&self, duration_ms: u64, now_ms: u64) -> (r: WrapperChase)
        ensures
            r.wf(),
            r.depth_bound() == self.max_depth(),
            r.creatives_view() == Seq::<CreativeRefV>::empty(),
            r.queue_view() == seq![
                (
                    replace_all_spec(
                        replace_all_spec(
                            self.endpoint_view(),
                            "[DURATION]"@,
                            dec_str((duration_ms / 1000) as nat),
                        ),
                        "[CACHEBUSTING]"@,
                        dec_str(now_ms as nat),
                    ),
                    0u32,
                ),
            ],
    {
        WrapperChase::start(self.resolve_endpoint(duration_ms, now_ms), self.max_wrapper_depth)
    }

    /// Turn a finished chase's outcome into ad segments.
    ///
    /// With at least one resolved creative, one segment per creative is
    /// emitted under the opaque `break-0-seg-{i}.ts` names and each
    /// creative is cached under its session key.  With an empty or
    /// failed outcome the cache is untouched and the slate fills the
    /// break when configured; otherwise the break stays empty.  The
    /// request outcome (and any slate fallback) is recorded in the
    /// metrics registry.
    pub fn get_ad_segments_resolved(
        &mut self,
        outcome: Option<Vec<CreativeRef>>,
        duration_ms: u64,
        session_id: &str,
        now_ms: u64,
        metrics: &mut Metrics,
    ) -> (r: Vec<AdSegment>)
        requires
            old(self).wf(),
        ensures
            final(self).wf(),
            final(self).endpoint_view() == old(self).endpoint_view(),
            final(self).slate_of() == old(self).slate_of(),
            final(self).cache_ttl() == old(self).cache_ttl(),
            final(self).cap() == old(self).cap(),
            final(self).max_depth() == old(self).max_depth(),
            final(metrics).gauge() == old(metrics).gauge(),
            final(metrics).counters_view() == resolution_metrics(
                old(metrics).counters_view(),
                match outcome {
                    Some(ref creatives) => Some(creatives@.len() as int),
                    None => None,
                },
                old(self).slate_of() is Some,
            ),
            match outcome {
                Some(creatives) => if creatives@.len() > 0 {
                    let cv = creatives@.map_values(|c: CreativeRef| c@);
                    &&& r@.len() == cv.len()
                    &&& (forall|i: int| 0 <= i < r@.len() ==> (#[trigger] r@[i])@.uri
                        == vast_ad_name(i))
                    &&& (forall|i: int| 0 <= i < r@.len() ==> (#[trigger] r@[i])@.duration_ms
                        == cv[i].duration_ms)
                    &&& (forall|i: int| 0 <= i < r@.len() ==> (#[trigger] r@[i])@.tracking is None)
                    &&& final(self).cache_view() == cache_stored(
                        old(self).cache_view(),
                        cv,
                        0,
                        session_id@,
                        now_ms,
                    )
                } else {
                    fallback_ok(old(self), final(self), r@, duration_ms)
                },
                None => fallback_ok(old(self), final(self), r@, duration_ms),
            },
    {
        let creatives = match outcome {
            Some(c) => {
                if c.len() > 0 {
                    record_vast_request(metrics, "success");
                    c
                } else {
                    record_vast_request(metrics, "empty");
                    if self.slate.is_some() {
                        record_slate_fallback(metrics);
                    }
                    return self.fallback_segments(duration_ms, session_id);
                }
            },
            None => {
                record_vast_request(metrics, "error");
                if self.slate.is_some() {
                    record_slate_fallback(metrics);
                }
                return self.fallback_segments(duration_ms, session_id);
            },
        };
        let ghost cv = creatives@.map_values(|c: CreativeRef| c@);
        let ghost cache0 = self.cache_view();
        let n = creatives.len();
        let mut segments: Vec<AdSegment> = Vec::new();
        let mut i: usize = 0;
        while i < n
            invariant
                n == cv.len(),
                cv == creatives@.map_values(|c: CreativeRef| c@),
                old(self).wf(),
                self.wf(),
                self.slate_of() == old(self).slate_of(),
                self.endpoint_view() == old(self).endpoint_view(),
                self.cache_ttl() == old(self).cache_ttl(),
                self.cap() == old(self).cap(),
                self.max_depth() == old(self).max_depth(),
                0 <= i <= n,
                segments@.len() == i,
                forall|j: int| 0 <= j < i ==> (#[trigger] segments@[j])@.uri == vast_ad_name(j),
                forall|j: int| 0 <= j < i ==> (#[trigger] segments@[j])@.duration_ms
                    == cv[j].duration_ms,
                forall|j: int| 0 <= j < i ==> (#[trigger] segments@[j])@.tracking is None,
                cache_stored(cache0, cv, 0, session_id@, now_ms) == cache_stored(
                    self.cache_view(),
                    cv,
                    i as int,
                    session_id@,
                    now_ms,
                ),
            decreases n - i,
        {
            proof {
                assert(cv[i as int] == creatives@[i as int]@);
            }
            let creative = &creatives[i];
            let mut ad_name = "break-0-seg-".to_owned();
            ad_name.append(usize_to_string(i).as_str());
            ad_name.append(".ts");
            let mut key = session_id.to_owned();
            key.append(":");
            key.append(ad_name.as_str());
            let entry = CachedCreative {
                key,
                url: creative.url.clone(),
                duration_ms: creative.duration_ms,
                is_hls: creative.is_hls,
                inserted_at_ms: now_ms,
            };
            proof {
                assert(entry@ == (CachedCreativeV {
                    key: cache_key_of(session_id@, vast_ad_name(i as int)),
                    url: cv[i as int].url,
                    duration_ms: cv[i as int].duration_ms,
                    is_hls: cv[i as int].is_hls,
                    inserted_at_ms: now_ms,
                }));
            }
            self.cache_insert(entry);
            segments.push(AdSegment { uri: ad_name, duration_ms: creative.duration_ms, tracking: None });
            i += 1;
        }
        segments
    }

    /// Upsert one cache entry.
    fn cache_insert(&mut self, entry: CachedCreative)
        ensures
            final(self).cache_view() == cache_upsert(old(self).cache_view(), entry@),
            final(self).endpoint_view() == old(self).endpoint_view(),
            final(self).slate_of() == old(self).slate_of(),
            final(self).cache_ttl() == old(self).cache_ttl(),
            final(self).cap() == old(self).cap(),
            final(self).max_depth() == old(self).max_depth(),
            final(self).timeout_spec() == old(self).timeout_spec(),
    {
        let ghost cs0 = self.cache_view();
        let len = self.ad_cache.len();
        let mut i: usize = 0;
        proof {
            assert(cs0.subrange(0, 0) =~= Seq::<CachedCreativeV>::empty());
            assert(cs0.subrange(0, len as int) =~= cs0);
            assert(Seq::<CachedCreativeV>::empty() + cache_upsert(cs0, entry@) =~= cache_upsert(
                cs0,
                entry@,
            ));
        }
        while i < len
            invariant
                len == cs0.len(),
                cs0 == self.cache_view(),
                cs0 == old(self).cache_view(),
                self.endpoint_view() == old(self).endpoint_view(),
                self.slate_of() == old(self).slate_of(),
                self.cache_ttl() == old(self).cache_ttl(),
                self.cap() == old(self).cap(),
                self.max_depth() == old(self).max_depth(),
                self.timeout_spec() == old(self).timeout_spec(),
                0 <= i <= len,
                forall|j: int| 0 <= j < i ==> (#[trigger] cs0[j]).key != entry@.key,
                cache_upsert(cs0, entry@) == cs0.subrange(0, i as int) + cache_upsert(
                    cs0.subrange(i as int, len as int),
                    entry@,
                ),
            decreases len - i,
        {
            proof {
                assert(cs0[i as int] == self.ad_cache@[i as int]@);
                assert(cs0.subrange(i as int, len as int).first() == cs0[i as int]);
                assert(cs0.subrange(i as int, len as int).drop_first() =~= cs0.subrange(
                    i + 1,
                    len as int,
                ));
            }
            if str_eq(self.ad_cache[i].key.as_str(), entry.key.as_str()) {
                let ghost before = self.cache_view();
                self.ad_cache[i] = entry;
                proof {
                    assert(self.cache_view() =~= before.update(i as int, self.ad_cache@[i as int]@));
                    assert(cache_upsert(cs0.subrange(i as int, len as int), self.ad_cache@[i as int]@)
                        =~= seq![self.ad_cache@[i as int]@] + cs0.subrange(i + 1, len as int));
                    assert(self.cache_view() =~= cs0.subrange(0, i as int) + cache_upsert(
                        cs0.subrange(i as int, len as int),
                        self.ad_cache@[i as int]@,
                    ));
                    assert(self.cache_view() == cache_upsert(old(self).cache_view(),
                        self.ad_cache@[i as int]@));
                }
                return;
            }
            proof {
                assert(cs0.subrange(0, i + 1) =~= cs0.subrange(0, i as int) + seq![cs0[i as int]]);
                assert(cs0.subrange(0, i as int) + (seq![cs0[i as int]] + cache_upsert(
                    cs0.subrange(i + 1, len as int),
                    entry@,
                )) =~= cs0.subrange(0, i + 1) + cache_upsert(
                    cs0.subrange(i + 1, len as int),
                    entry@,
                ));
            }
            i += 1;
        }
        self.ad_cache.push(entry);
        proof {
            assert(cs0.subrange(i as int, len as int) =~= Seq::<CachedCreativeV>::empty());
            assert(cs0.subrange(0, len as int) =~= cs0);
            assert(self.cache_view() =~= cs0 + seq![self.ad_cache@[len as int]@]);
            assert(cache_upsert(Seq::<CachedCreativeV>::empty(), self.ad_cache@[len as int]@)
                =~= seq![self.ad_cache@[len as int]@]);
        }
    }

    /// Slate fill for an empty or failed VAST outcome.
    fn fallback_segments(&mut self, duration_ms: u64, session_id: &str) -> (r: Vec<AdSegment>)
        requires
            old(self).wf(),
        ensures
            *final(self) == *old(self),
            fallback_ok(old(self), final(self), r@, duration_ms),
    {
        match &self.slate {
            Some(slate) => slate.fill_duration(duration_ms, session_id),
            None => Vec::new(),
        }
    }

    /// Resolve an ad name to its creative URL: slate names go to the
    /// slate; other names are looked up in the cache by key suffix.
    pub fn resolve_segment_url(&self, ad_name: &str) -> (r: Option<String>)
        requires
            self.wf(),
        ensures
            match r {
                Some(url) => if starts_with(ad_name@, "slate-seg-"@) {
                    self.slate_of() matches Some(sl) && exists|v: nat|
                        slate_seg_index(ad_name@) == Some(v) && url@ == crate::ad::provider::cycle_url(
                            sl.source_view(),
                            v % (sl.count() as nat),
                        )
                } else {
                    cache_find(self.cache_view(), ad_name@) matches Some(e) && url@ == e.url
                },
                None => if starts_with(ad_name@, "slate-seg-"@) {
                    self.slate_of() is None || slate_seg_index(ad_name@) is None
                } else {
                    cache_find(self.cache_view(), ad_name@) is None
                },
            },
    {
        if str_starts_with(ad_name, "slate-seg-") {
            return match &self.slate {
                Some(slate) => slate.resolve_segment_url(ad_name),
                None => None,
            };
        }
        let mut suffix = ":".to_owned();
        suffix.append(ad_name);
        let ghost cs0 = self.cache_view();
        let len = self.ad_cache.len();
        let mut i: usize = 0;
        proof {
            assert(cs0.subrange(0, len as int) =~= cs0);
        }
        while i < len
            invariant
                len == cs0.len(),
                cs0 == self.cache_view(),
                suffix@ == ":"@ + ad_name@,
                !starts_with(ad_name@, "slate-seg-"@),
                0 <= i <= len,
                cache_find(cs0, ad_name@) == cache_find(
                    cs0.subrange(i as int, len as int),
                    ad_name@,
                ),
            decreases len - i,
        {
            proof {
                assert(cs0[i as int] == self.ad_cache@[i as int]@);
                assert(cs0.subrange(i as int, len as int).first() == cs0[i as int]);
                assert(cs0.subrange(i as int, len as int).drop_first() =~= cs0.subrange(
                    i + 1,
                    len as int,
                ));
            }
            if str_ends_with(self.ad_cache[i].key.as_str(), suffix.as_str()) {
                return Some(self.ad_cache[i].url.clone());
            }
            i += 1;
        }
        proof {
            assert(cs0.subrange(len as int, len as int) =~= Seq::<CachedCreativeV>::empty());
        }
        None
    }

    /// Resolve an ad name together with tracking context; resolved VAST
    /// creatives carry none at this layer.
    pub fn resolve_segment_with_tracking(&self, ad_name: &str, _session_id: &str) -> (r: Option<
        ResolvedSegment,
    >)
        requires
            self.wf(),
        ensures
            match r {
                Some(seg) => seg.tracking is None && if starts_with(ad_name@, "slate-seg-"@) {
                    self.slate_of() matches Some(sl) && exists|v: nat|
                        slate_seg_index(ad_name@) == Some(v) && seg.url@
                            == crate::ad::provider::cycle_url(
                            sl.source_view(),
                            v % (sl.count() as nat),
                        )
                } else {
                    cache_find(self.cache_view(), ad_name@) matches Some(e) && seg.url@ == e.url
                },
                None => if starts_with(ad_name@, "slate-seg-"@) {
                    self.slate_of() is None || slate_seg_index(ad_name@) is None
                } else {
                    cache_find(self.cache_view(), ad_name@) is None
                },
            },
    {
        match self.resolve_segment_url(ad_name) {
            Some(url) => Some(ResolvedSegment { url, tracking: None }),
            None => None,
        }
    }

    /// Sweep the cache: drop expired entries, then the oldest entries
    /// beyond the count bound.
    pub fn cleanup_cache(&mut self, now_ms: u64)
        ensures
            final(self).wf() == old(self).wf(),
            final(self).endpoint_view() == old(self).endpoint_view(),
            final(self).slate_of() == old(self).slate_of(),
            final(self).cache_ttl() == old(self).cache_ttl(),
            final(self).cap() == old(self).cap(),
            final(self).max_depth() == old(self).max_depth(),
            final(self).cache_view() == cache_swept(
                old(self).cache_view(),
                now_ms,
                old(self).cache_ttl(),
                old(self).cap() as int,
            ),
    {
        let ghost cs0 = self.cache_view();
        let ghost ttl = self.cache_ttl_ms;
        let len = self.ad_cache.len();
        let mut kept: Vec<CachedCreative> = Vec::new();
        assert(cs0.subrange(0, 0) =~= Seq::<CachedCreativeV>::empty());
        assert(Seq::<CachedCreativeV>::empty().filter(
            |e: CachedCreativeV| cache_live(e, now_ms, ttl),
        ) =~= Seq::<CachedCreativeV>::empty()) by {
            reveal(Seq::filter);
        }
        let mut i: usize = 0;
        while i < len
            invariant
                len == cs0.len(),
                cs0 == self.cache_view(),
                ttl == self.cache_ttl_ms,
                0 <= i <= len,
                kept@.map_values(|c: CachedCreative| c@) == cs0.subrange(0, i as int).filter(
                    |e: CachedCreativeV| cache_live(e, now_ms, ttl),
                ),
            decreases len - i,
        {
            proof {
                reveal(Seq::filter);
                assert(cs0.subrange(0, i + 1).drop_last() =~= cs0.subrange(0, i as int));
                assert(cs0.subrange(0, i + 1).last() == cs0[i as int]);
                assert(cs0[i as int] == self.ad_cache@[i as int]@);
            }
            let e = &self.ad_cache[i];
            let ghost kept0 = kept@;
            if now_ms < e.inserted_at_ms || now_ms - e.inserted_at_ms < self.cache_ttl_ms {
                kept.push(e.clone_entry());
                proof {
                    assert(kept@.map_values(|c: CachedCreative| c@) =~= kept0.map_values(
                        |c: CachedCreative| c@,
                    ).push(cs0[i as int]));
                }
            }
            i += 1;
        }
        proof {
            assert(cs0.subrange(0, len as int) =~= cs0);
        }
        // enforce the count bound, oldest first
        let ghost filtered = cs0.filter(|e: CachedCreativeV| cache_live(e, now_ms, ttl));
        let ghost mut dropped: int = 0;
        proof {
            assert(kept@.map_values(|c: CachedCreative| c@) =~= filtered.subrange(
                0,
                filtered.len() as int,
            ));
        }
        while kept.len() > self.cache_cap
            invariant
                ttl == self.cache_ttl_ms,
                cs0 == self.cache_view(),
                filtered == cs0.filter(|e: CachedCreativeV| cache_live(e, now_ms, ttl)),
                0 <= dropped,
                dropped + kept@.len() == filtered.len(),
                kept@.map_values(|c: CachedCreative| c@) == filtered.subrange(
                    dropped,
                    filtered.len() as int,
                ),
                dropped > 0 ==> kept@.len() >= self.cache_cap,
            decreases kept.len(),
        {
            let ghost okv = kept@;
            kept.remove(0);
            proof {
                assert(kept@ =~= okv.drop_first());
                dropped = dropped + 1;
                assert forall|j: int| 0 <= j < kept@.len() implies kept@.map_values(
                    |c: CachedCreative| c@,
                )[j] == filtered.subrange(dropped, filtered.len() as int)[j] by {
                    assert(kept@[j] == okv[j + 1]);
                    assert(okv.map_values(|c: CachedCreative| c@)[j + 1] == filtered.subrange(
                        dropped - 1,
                        filtered.len() as int,
                    )[j + 1]);
                }
                assert(kept@.map_values(|c: CachedCreative| c@) =~= filtered.subrange(
                    dropped,
                    filtered.len() as int,
                ));
            }
        }
        proof {
            if kept@.len() == filtered.len() {
                assert(kept@.map_values(|c: CachedCreative| c@) =~= filtered);
            } else {
                assert(kept@.len() == self.cache_cap);
                assert(dropped == filtered.len() - self.cache_cap);
            }
        }
        self.ad_cache = kept;
    }
}

impl CachedCreative {
    /// An exact copy.
    fn clone_entry(&self) -> (r: CachedCreative)
        ensures
            r@ == self@,
    {
        CachedCreative {
            key: self.key.clone(),
            url: self.url.clone(),
            duration_ms: self.duration_ms,
            is_hls: self.is_hls,
            inserted_at_ms: self.inserted_at_ms,
        }
    }
}

/// The metric counters after one VAST resolution: the request outcome
/// is recorded as `success`, `empty` or `error`, and a slate fallback
/// (an empty or failed outcome with a slate configured) is recorded too.
pub open spec fn resolution_metrics(
    counters: Seq<crate::metrics::CounterV>,
    outcome_len: Option<int>,
    has_slate: bool,
) -> Seq<crate::metrics::CounterV> {
    match outcome_len {
        Some(len) => if len > 0 {
            bumped(counters, vast_key("success"@), 1)
        } else if has_slate {
            bumped(bumped(counters, vast_key("empty"@), 1), "slate_fallbacks_total"@, 1)
        } else {
            bumped(counters, vast_key("empty"@), 1)
        },
        None => if has_slate {
            bumped(bumped(counters, vast_key("error"@), 1), "slate_fallbacks_total"@, 1)
        } else {
            bumped(counters, vast_key("error"@), 1)
        },
    }
}

/// The fallback outcome of an empty or failed VAST resolution: the
/// cache is untouched, and the slate fills the break when configured,
/// else nothing does.
pub open spec fn fallback_ok(
    before: &VastAdProvider,
    after: &VastAdProvider,
    r: Seq<AdSegment>,
    duration_ms: u64,
) -> bool {
    &&& after.cache_view() == before.cache_view()
    &&& match before.slate_of() {
        Some(sl) => {
            &&& r.len() == crate::ad::provider::fill_count(duration_ms, sl.segment_ms())
            &&& (forall|i: int| 0 <= i < r.len() ==> (#[trigger] r[i])@.uri
                == crate::ad::slate::slate_seg_uri(i as nat))
            &&& (forall|i: int| 0 <= i < r.len() ==> (#[trigger] r[i])@.duration_ms
                == sl.segment_ms())
        },
        None => r.len() == 0,
    }
}

} // verus!
